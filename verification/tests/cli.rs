use rtest::cli::{parse_count, Args, NumProcesses};
use rtest::runner::PytestRunner;

fn with_processes(text: Option<&str>) -> Args {
    let mut args = Args::defaults();
    args.numprocesses = text.map(|t| t.to_string());
    args
}

fn with_dist(dist: &str) -> Args {
    let mut args = Args::defaults();
    args.dist = dist.to_string();
    args
}

#[test]
fn test_get_num_processes() {
    let args = with_processes(Some("auto"));
    assert!(matches!(args.get_num_processes(), Some(NumProcesses::Auto)));

    let args = with_processes(Some("logical"));
    assert!(matches!(args.get_num_processes(), Some(NumProcesses::Logical)));

    let args = with_processes(Some("4"));
    assert!(matches!(args.get_num_processes(), Some(NumProcesses::Count(4))));

    let args = with_processes(None);
    assert!(args.get_num_processes().is_none());
}

#[test]
fn test_validate_dist() {
    let args = with_dist("load");
    assert!(args.validate_dist().is_ok());

    // every mode of the command line is accepted
    for mode in ["loadscope", "loadfile", "loadgroup", "worksteal", "no"] {
        assert!(with_dist(mode).validate_dist().is_ok());
    }

    let args = with_dist("each");
    assert_eq!(
        args.validate_dist(),
        Err("Distribution mode 'each' is not supported. Supported modes: load, loadscope, loadfile, loadgroup, worksteal, no".to_string())
    );
}

#[test]
fn test_defaults() {
    let args = Args::defaults();
    assert_eq!(args.package_manager, "python");
    assert!(args.env.is_empty());
    assert!(args.pytest_args.is_empty());
    assert!(args.numprocesses.is_none());
    assert!(args.maxprocesses.is_none());
    assert_eq!(args.dist, "load");
    assert!(!args.collect_only);
    assert!(args.files.is_empty());
}

#[test]
fn test_counts_that_are_no_numbers_ask_for_one_worker() {
    for text in ["", "+", "four", "4x", "-1", " 4", "18446744073709551616", "1e3"] {
        assert!(matches!(
            with_processes(Some(text)).get_num_processes(),
            Some(NumProcesses::Count(1))
        ));
        assert_eq!(parse_count(text), None);
    }
    assert_eq!(parse_count("0"), Some(0));
    assert_eq!(parse_count("+12"), Some(12));
    assert_eq!(parse_count("007"), Some(7));
    assert_eq!(parse_count("18446744073709551615"), Some(18446744073709551615));
    assert!(matches!(
        with_processes(Some("0")).get_num_processes(),
        Some(NumProcesses::Count(0))
    ));
}

#[test]
fn test_default_python_runner() {
    let runner = PytestRunner::new("python".to_string(), vec![]);

    assert_eq!(runner.program, "python3");
    assert_eq!(runner.initial_args, vec!["-m", "pytest"]);
}

#[test]
fn test_uv_runner() {
    let runner = PytestRunner::new("uv".to_string(), vec![]);

    assert_eq!(runner.program, "uv");
    assert_eq!(runner.initial_args, vec!["run", "python", "-m", "pytest"]);
}

#[test]
fn test_pipenv_runner() {
    let runner = PytestRunner::new("pipenv".to_string(), vec![]);

    assert_eq!(runner.program, "pipenv");
    assert_eq!(runner.initial_args, vec!["run", "python", "-m", "pytest"]);
}

#[test]
fn test_poetry_runner() {
    let runner = PytestRunner::new("poetry".to_string(), vec![]);

    assert_eq!(runner.program, "poetry");
    assert_eq!(runner.initial_args, vec!["run", "python", "-m", "pytest"]);
}

#[test]
fn test_unknown_package_manager() {
    let runner = PytestRunner::new("unknown".to_string(), vec![]);

    assert_eq!(runner.program, "python3");
    assert_eq!(runner.initial_args, vec!["-m", "pytest"]);
}

#[test]
fn test_env_vars_acknowledged() {
    let env_vars = vec!["DEBUG=1".to_string(), "TEST_ENV=staging".to_string()];
    let runner = PytestRunner::new("python".to_string(), env_vars.clone());

    assert_eq!(runner.program, "python3");
    assert_eq!(runner.env_vars, env_vars);
    let direct = PytestRunner::from_interpreter("/usr/bin/python3.12".to_string());
    assert_eq!(direct.program, "/usr/bin/python3.12");
    assert_eq!(direct.initial_args, vec!["-m", "pytest"]);
}
