use rtest::worker::{
    aggregate_exit_code, build_command_args, single_test_command, summarize_work_stealing,
    worker_result, WorkerOutcome, WorkerPool, WorkerResult,
};

fn exited(code: i32, out: &str) -> WorkerOutcome {
    WorkerOutcome::Exited { exit_code: Some(code), stdout: out.to_string(), stderr: String::new() }
}

fn spawn(pool: &mut WorkerPool, id: usize, tests: &[&str]) {
    pool.spawn_worker(
        id,
        "echo".into(),
        vec![],
        tests.iter().map(|t| t.to_string()).collect(),
        vec![],
        None,
    );
}

#[test]
fn test_worker_pool_creation() {
    let pool = WorkerPool::new();
    assert_eq!(pool.worker_count(), 0);
    assert_eq!(WorkerPool::default().worker_count(), 0);
}

#[test]
fn test_worker_result_creation() {
    let result = WorkerResult {
        worker_id: 1,
        exit_code: 0,
        stdout: "test output".into(),
        stderr: String::new(),
    };
    assert_eq!(result.worker_id, 1);
    assert_eq!(result.exit_code, 0);
    assert_eq!(result.stdout, "test output");
}

#[test]
fn test_worker_result_structure() {
    let result = WorkerResult {
        worker_id: 1,
        exit_code: 0,
        stdout: "Test output".to_string(),
        stderr: String::new(),
    };

    assert_eq!(result.worker_id, 1);
    assert_eq!(result.exit_code, 0);
    assert_eq!(result.stdout, "Test output");
    assert!(result.stderr.is_empty());
}

#[test]
fn test_spawn_and_wait_echo_command() {
    let mut pool = WorkerPool::new();

    pool.spawn_worker(
        0,
        "echo".into(),
        vec![],
        vec!["hello".into()],
        vec!["world".into()],
        None,
    );

    assert_eq!(pool.worker_count(), 1);
    assert_eq!(pool.commands()[0].program, "echo");
    assert_eq!(pool.commands()[0].args, vec!["hello", "world"]);
    assert_eq!(pool.commands()[0].working_dir, None);

    let results = pool.wait_for_all(&vec![exited(0, "hello world\n")]);
    assert_eq!(results.len(), 1);
    assert_eq!(results[0].worker_id, 0);
    assert_eq!(results[0].exit_code, 0);
    assert!(results[0].stdout.contains("hello"));
    assert!(results[0].stdout.contains("world"));
}

#[test]
fn test_worker_pool_basic_functionality() {
    let mut pool = WorkerPool::new();
    assert_eq!(pool.worker_count(), 0);

    pool.spawn_worker(
        0,
        "echo".to_string(),
        vec!["hello".to_string()],
        vec!["test".to_string()],
        vec!["world".to_string()],
        Some("/work".to_string()),
    );

    assert_eq!(pool.worker_count(), 1);
    assert_eq!(pool.commands()[0].args, vec!["hello", "--rootdir", "/work", "test", "world"]);
    assert_eq!(pool.commands()[0].working_dir, Some("/work".to_string()));

    let results = pool.wait_for_all(&vec![exited(0, "")]);
    assert_eq!(results.len(), 1);
    assert_eq!(results[0].worker_id, 0);
}

#[test]
fn test_multiple_workers() {
    let mut pool = WorkerPool::new();
    spawn(&mut pool, 0, &["worker0"]);
    spawn(&mut pool, 1, &["worker1"]);

    assert_eq!(pool.worker_count(), 2);

    let results = pool.wait_for_all(&vec![exited(0, "worker0\n"), exited(0, "worker1\n")]);
    assert_eq!(results.len(), 2);

    assert_eq!(results[0].worker_id, 0);
    assert_eq!(results[1].worker_id, 1);
    assert!(results[0].stdout.contains("worker0"));
    assert!(results[1].stdout.contains("worker1"));
}

#[test]
fn test_worker_failure() {
    let mut pool = WorkerPool::new();
    pool.spawn_worker(0, "false".into(), vec![], vec![], vec![], None);

    let results = pool.wait_for_all(&vec![exited(1, "")]);
    assert_eq!(results.len(), 1);
    assert_eq!(results[0].worker_id, 0);
    assert_ne!(results[0].exit_code, 0);
}

#[test]
fn test_worker_with_initial_args() {
    let mut pool = WorkerPool::new();

    pool.spawn_worker(
        0,
        "echo".into(),
        vec!["initial".into(), "args".into()],
        vec!["test1".into()],
        vec!["final".into()],
        None,
    );
    assert_eq!(pool.commands()[0].args, vec!["initial", "args", "test1", "final"]);

    let results = pool.wait_for_all(&vec![exited(0, "initial args test1 final\n")]);
    assert_eq!(results.len(), 1);
    assert_eq!(results[0].exit_code, 0);

    let output = &results[0].stdout;
    assert!(output.contains("initial"));
    assert!(output.contains("args"));
    assert!(output.contains("test1"));
    assert!(output.contains("final"));
}

#[test]
fn test_worker_invalid_command() {
    let mut pool = WorkerPool::new();
    pool.spawn_worker(0, "nonexistent_command_12345".into(), vec![], vec![], vec![], None);

    let results =
        pool.wait_for_all(&vec![WorkerOutcome::SpawnFailed("No such file or directory".into())]);
    assert_eq!(results.len(), 1);
    assert_eq!(results[0].worker_id, 0);
    assert_eq!(results[0].exit_code, -1);
    assert!(results[0].stderr.contains("Failed to execute command"));
    assert_eq!(results[0].stderr, "Failed to execute command: No such file or directory");
}

#[test]
fn test_worker_result_sorting() {
    let mut pool = WorkerPool::new();
    spawn(&mut pool, 2, &["worker2"]);
    spawn(&mut pool, 0, &["worker0"]);
    spawn(&mut pool, 1, &["worker1"]);

    let results =
        pool.wait_for_all(&vec![exited(0, "worker2\n"), exited(0, "worker0\n"), exited(0, "worker1\n")]);
    assert_eq!(results.len(), 3);

    assert_eq!(results[0].worker_id, 0);
    assert_eq!(results[1].worker_id, 1);
    assert_eq!(results[2].worker_id, 2);
    assert_eq!(results[0].stdout, "worker0\n");
    assert_eq!(results[2].stdout, "worker2\n");
}

#[test]
fn test_empty_worker_pool() {
    let pool = WorkerPool::new();
    let results = pool.wait_for_all(&vec![]);
    assert!(results.is_empty());
}

#[test]
fn test_worker_exit_code_propagation() {
    // worker 0 exits 0, worker 1 exits 2: the run exits 2
    let mut pool = WorkerPool::new();
    spawn(&mut pool, 1, &["b"]);
    spawn(&mut pool, 0, &["a"]);
    let results = pool.wait_for_all(&vec![exited(2, ""), exited(0, "")]);
    let ids: Vec<usize> = results.iter().map(|r| r.worker_id).collect();
    assert_eq!(ids, vec![0, 1]);
    assert_eq!(aggregate_exit_code(&results), 2);

    let codes = |codes: &[i32]| -> Vec<WorkerResult> {
        codes
            .iter()
            .enumerate()
            .map(|(i, c)| WorkerResult {
                worker_id: i,
                exit_code: *c,
                stdout: String::new(),
                stderr: String::new(),
            })
            .collect()
    };
    assert_eq!(aggregate_exit_code(&codes(&[])), 0);
    assert_eq!(aggregate_exit_code(&codes(&[0, 0])), 0);
    assert_eq!(aggregate_exit_code(&codes(&[0, 5, 0])), 0);
    assert_eq!(aggregate_exit_code(&codes(&[5, 3, 1])), 3);
    assert_eq!(aggregate_exit_code(&codes(&[0, -1, 2])), -1);
}

#[test]
fn test_missing_outcomes_and_signals_count_as_minus_one() {
    let mut pool = WorkerPool::new();
    spawn(&mut pool, 7, &["x"]);
    spawn(&mut pool, 3, &["y"]);
    spawn(&mut pool, 3, &["z"]);
    let killed = WorkerOutcome::Exited {
        exit_code: None,
        stdout: "partial".to_string(),
        stderr: "killed".to_string(),
    };
    let results = pool.wait_for_all(&vec![killed, WorkerOutcome::Panicked]);
    assert_eq!(results.len(), 3);
    assert_eq!(results[0].worker_id, 3);
    assert_eq!(results[0].stderr, "Worker thread panicked");
    assert_eq!(results[1].worker_id, 3);
    assert_eq!(results[1].exit_code, -1);
    assert_eq!(results[1].stderr, "Worker thread panicked");
    assert_eq!(results[2].worker_id, 7);
    assert_eq!(results[2].exit_code, -1);
    assert_eq!(results[2].stdout, "partial");
    let direct = worker_result(9, &exited(4, "out"));
    assert_eq!((direct.worker_id, direct.exit_code), (9, 4));
}

#[test]
fn test_execute_worksteal_distribution() {
    let summary = summarize_work_stealing(&vec![0, 5, 1, 0, 2, 5, 0]);
    assert_eq!(summary.total_tests, 7);
    assert_eq!(summary.passed, 3);
    assert_eq!(summary.skipped, 2);
    assert_eq!(summary.failed, 2);
    assert_eq!(summary.exit_code, 1);
    assert_eq!(summary.total_tests, summary.passed + summary.failed + summary.skipped);
    let clean = summarize_work_stealing(&vec![0, 5]);
    assert_eq!((clean.passed, clean.skipped, clean.failed, clean.exit_code), (1, 1, 0, 0));
    let empty = summarize_work_stealing(&vec![]);
    assert_eq!((empty.total_tests, empty.exit_code), (0, 0));

    let command = single_test_command(
        4,
        "python3",
        &vec!["-m".to_string(), "pytest".to_string()],
        "/repo",
        "tests/test_a.py::test_x[1]",
    );
    assert_eq!(command.worker_id, 4);
    assert_eq!(command.program, "python3");
    assert_eq!(command.args, vec!["-m", "pytest", "--rootdir", "/repo", "tests/test_a.py::test_x[1]"]);
    assert_eq!(command.working_dir, Some("/repo".to_string()));
    assert_eq!(
        build_command_args(&vec![], &None, &vec!["a".to_string()], &vec!["-v".to_string()]),
        vec!["a", "-v"]
    );
}

#[test]
fn test_single_test_result_names_the_test() {
    let failed = WorkerOutcome::SpawnFailed("No such file or directory".to_string());
    let result = rtest::worker::single_test_result(3, &failed);
    assert_eq!(result.worker_id, 3);
    assert_eq!(result.exit_code, -1);
    assert_eq!(result.stdout, "");
    assert_eq!(result.stderr, "Failed to execute test: No such file or directory");
    let batch = rtest::worker::worker_result(3, &failed);
    assert_eq!(batch.stderr, "Failed to execute command: No such file or directory");
    let ran = rtest::worker::single_test_result(1, &exited(5, "nothing ran"));
    assert_eq!(ran.exit_code, 5);
    assert_eq!(ran.stdout, "nothing ran");
    let signalled = WorkerOutcome::Exited { exit_code: None, stdout: String::new(), stderr: "killed".into() };
    assert_eq!(rtest::worker::single_test_result(0, &signalled).exit_code, -1);
}
