use rtest::cli::{determine_worker_count, worker_count_for, NumProcesses};
use rtest::collection::types::{Function, Location};
use rtest::error::SchedulerError;
use rtest::scheduler::{
    create_scheduler_function, create_scheduler_string, create_workers, distribute_groups_to_workers,
    distribute_round_robin, extract_file, extract_scope, group_items_by_key, validate_inputs,
    DistributionMode, LoadFileScheduler, LoadGroupScheduler, LoadScheduler, LoadScopeScheduler,
    NoScheduler, ParseDistributionModeError, Scheduler, WorkStealScheduler,
};
use std::collections::HashMap;
use std::collections::HashSet;
use std::str::FromStr;

fn strings(items: &[&str]) -> Vec<String> {
    items.iter().map(|s| s.to_string()).collect()
}

fn function(name: &str, nodeid: &str, path: &str, line: usize, group: Option<&str>) -> Function {
    Function {
        name: name.into(),
        nodeid: nodeid.into(),
        location: Location { path: path.into(), line: Some(line), name: name.into() },
        is_parametrized: false,
        has_uncertain_params: false,
        xdist_group: group.map(|g| g.to_string()),
    }
}

#[test]
fn test_distribution_mode_from_str() {
    assert!(matches!("load".parse::<DistributionMode>(), Ok(DistributionMode::Load)));
    assert!(matches!("loadscope".parse::<DistributionMode>(), Ok(DistributionMode::LoadScope)));
    assert!(matches!("loadfile".parse::<DistributionMode>(), Ok(DistributionMode::LoadFile)));
    assert!(matches!("loadgroup".parse::<DistributionMode>(), Ok(DistributionMode::LoadGroup)));
    assert!(matches!("worksteal".parse::<DistributionMode>(), Ok(DistributionMode::WorkSteal)));
    assert!(matches!("no".parse::<DistributionMode>(), Ok(DistributionMode::No)));
    assert!("invalid".parse::<DistributionMode>().is_err());
}

#[test]
fn test_load_scheduler_empty_tests() {
    let scheduler = LoadScheduler;
    let result: Vec<Vec<String>> = scheduler.distribute(vec![], 4).unwrap();
    assert!(result.is_empty());
}

#[test]
fn test_load_scheduler_zero_workers() {
    let scheduler = LoadScheduler;
    let tests = vec!["test1".to_string(), "test2".to_string()];
    let result = scheduler.distribute(tests, 0);
    assert!(matches!(
        result,
        Err(SchedulerError::InvalidWorkerCount { requested: 0, min: 1, max: usize::MAX })
    ));
}

#[test]
fn test_load_scheduler_single_worker() {
    let scheduler = LoadScheduler;
    let tests = vec!["test1".to_string(), "test2".to_string(), "test3".to_string()];
    let result = scheduler.distribute(tests.clone(), 1).unwrap();
    assert_eq!(result.len(), 1);
    assert_eq!(result[0], tests);
}

#[test]
fn test_load_scheduler_round_robin() {
    let scheduler = LoadScheduler;
    let tests = vec![
        "test1".to_string(),
        "test2".to_string(),
        "test3".to_string(),
        "test4".into(),
        "test5".into(),
    ];
    let result = scheduler.distribute(tests, 3).unwrap();

    assert_eq!(result.len(), 3);
    assert_eq!(result[0], vec!["test1", "test4"]);
    assert_eq!(result[1], vec!["test2", "test5"]);
    assert_eq!(result[2], vec!["test3"]);
}

#[test]
fn test_load_scheduler_more_workers_than_tests() {
    let scheduler = LoadScheduler;
    let tests = vec!["test1".to_string(), "test2".to_string()];
    let result = scheduler.distribute(tests, 5).unwrap();

    assert_eq!(result.len(), 2);
    assert_eq!(result[0], vec!["test1"]);
    assert_eq!(result[1], vec!["test2"]);
}

#[test]
fn test_create_scheduler() {
    let scheduler = create_scheduler_string(DistributionMode::Load);
    let tests = vec!["test1".to_string(), "test2".to_string()];
    let result = scheduler.distribute(tests, 2).unwrap();
    assert_eq!(result.len(), 2);
}

#[test]
fn test_load_scheduler_consistent_distribution() {
    let scheduler = LoadScheduler;
    let tests =
        vec!["test1".to_string(), "test2".to_string(), "test3".to_string(), "test4".into()];

    let result1 = scheduler.distribute(tests.clone(), 2).unwrap();
    let result2 = scheduler.distribute(tests.clone(), 2).unwrap();

    assert_eq!(result1, result2);
    assert_eq!(result1[0], vec!["test1", "test3"]);
    assert_eq!(result1[1], vec!["test2", "test4"]);
}

#[test]
fn test_load_scheduler_all_tests_distributed() {
    let scheduler = LoadScheduler;
    let tests = vec![
        "test1".to_string(),
        "test2".to_string(),
        "test3".to_string(),
        "test4".into(),
        "test5".into(),
    ];

    let result = scheduler.distribute(tests.clone(), 3).unwrap();

    let mut all_distributed_tests: Vec<String> = Vec::new();
    for worker_tests in result {
        all_distributed_tests.extend(worker_tests);
    }

    all_distributed_tests.sort();
    let mut expected_tests = tests.clone();
    expected_tests.sort();

    assert_eq!(all_distributed_tests, expected_tests);
}

#[test]
fn test_distribution_mode_display() {
    assert_eq!(DistributionMode::Load.to_string(), "load");
    assert_eq!(DistributionMode::LoadScope.to_string(), "loadscope");
    assert_eq!(DistributionMode::LoadFile.to_string(), "loadfile");
    assert_eq!(DistributionMode::LoadGroup.to_string(), "loadgroup");
    assert_eq!(DistributionMode::WorkSteal.to_string(), "worksteal");
    assert_eq!(DistributionMode::No.to_string(), "no");
    assert_eq!(DistributionMode::LoadScope.as_str(), "loadscope");
    assert_eq!(DistributionMode::all().len(), 6);
}

#[test]
fn test_distribution_mode_from_str_error_message() {
    let error = "invalid".parse::<DistributionMode>().unwrap_err();
    let error_string = error.to_string();
    assert!(error_string.contains("Unsupported distribution mode: 'invalid'"));
    assert!(error_string
        .contains("Supported modes: load, loadscope, loadfile, loadgroup, worksteal, no"));
    assert!(matches!(error, ParseDistributionModeError::UnknownMode(ref text) if text == "invalid"));
}

#[test]
fn test_loadscope_scheduler_groups_by_scope() {
    let scheduler = LoadScopeScheduler;
    let tests: Vec<String> = vec![
        "tests/test_file1.py::TestClass1::test_method1".into(),
        "tests/test_file1.py::TestClass1::test_method2".into(),
        "tests/test_file1.py::test_function1".into(),
        "tests/test_file2.py::TestClass2::test_method1".into(),
        "tests/test_file2.py::test_function2".into(),
    ];
    let result = scheduler.distribute(tests, 4).unwrap();

    assert_eq!(result.len(), 4);

    let mut scope_to_worker: HashMap<String, usize> = HashMap::new();

    for (worker_idx, worker_tests) in result.iter().enumerate() {
        for test in worker_tests {
            let scope = extract_scope(test);
            if let Some(&existing_worker) = scope_to_worker.get(&scope) {
                assert_eq!(existing_worker, worker_idx);
            } else {
                scope_to_worker.insert(scope, worker_idx);
            }
        }
    }

    let total_tests: usize = result.iter().map(|w| w.len()).sum();
    assert_eq!(total_tests, 5);
    assert_eq!(scope_to_worker.len(), 4);

    // the scopes come in ascending order, the items of a scope in input order
    assert_eq!(result[0], vec!["tests/test_file1.py::test_function1"]);
    assert_eq!(
        result[1],
        vec![
            "tests/test_file1.py::TestClass1::test_method1",
            "tests/test_file1.py::TestClass1::test_method2"
        ]
    );
    assert_eq!(result[2], vec!["tests/test_file2.py::test_function2"]);
    assert_eq!(result[3], vec!["tests/test_file2.py::TestClass2::test_method1"]);
}

#[test]
fn test_loadscope_scheduler_single_worker() {
    let scheduler = LoadScopeScheduler;
    let tests: Vec<String> = vec![
        "tests/test_file1.py::TestClass1::test_method1".into(),
        "tests/test_file2.py::test_function1".into(),
    ];
    let result = scheduler.distribute(tests.clone(), 1).unwrap();
    assert_eq!(result.len(), 1);
    assert_eq!(result[0].len(), 2);
    assert_eq!(result[0], tests);
}

#[test]
fn test_loadfile_scheduler_groups_by_file() {
    let scheduler = LoadFileScheduler;
    let tests: Vec<String> = vec![
        "tests/test_file1.py::TestClass1::test_method1".into(),
        "tests/test_file1.py::TestClass1::test_method2".into(),
        "tests/test_file1.py::test_function1".into(),
        "tests/test_file2.py::TestClass2::test_method1".into(),
        "tests/test_file2.py::test_function2".into(),
        "tests/test_file3.py::test_function3".into(),
    ];
    let result = scheduler.distribute(tests, 2).unwrap();

    assert_eq!(result.len(), 2);

    let mut file_to_worker: HashMap<String, usize> = HashMap::new();

    for (worker_idx, worker_tests) in result.iter().enumerate() {
        for test in worker_tests {
            let file = extract_file(test);
            if let Some(&existing_worker) = file_to_worker.get(&file) {
                assert_eq!(existing_worker, worker_idx);
            } else {
                file_to_worker.insert(file, worker_idx);
            }
        }
    }

    let total_tests: usize = result.iter().map(|w| w.len()).sum();
    assert_eq!(total_tests, 6);

    // files one and three go to the first worker, file two to the second
    assert_eq!(result[0].len(), 4);
    assert_eq!(result[0][3], "tests/test_file3.py::test_function3");
    assert_eq!(
        result[1],
        vec![
            "tests/test_file2.py::TestClass2::test_method1",
            "tests/test_file2.py::test_function2"
        ]
    );
}

#[test]
fn test_worksteal_scheduler_round_robin() {
    let scheduler = WorkStealScheduler;
    let tests = vec![
        "test1".to_string(),
        "test2".to_string(),
        "test3".to_string(),
        "test4".into(),
        "test5".into(),
        "test6".into(),
    ];
    let result = scheduler.distribute(tests, 3).unwrap();

    assert_eq!(result.len(), 3);
    assert_eq!(result[0], vec!["test1", "test4"]);
    assert_eq!(result[1], vec!["test2", "test5"]);
    assert_eq!(result[2], vec!["test3", "test6"]);
}

#[test]
fn test_worksteal_scheduler_uneven_distribution() {
    let scheduler = WorkStealScheduler;
    let tests = vec![
        "test1".to_string(),
        "test2".to_string(),
        "test3".to_string(),
        "test4".into(),
        "test5".into(),
    ];
    let result = scheduler.distribute(tests, 3).unwrap();

    assert_eq!(result.len(), 3);
    assert_eq!(result[0], vec!["test1", "test4"]);
    assert_eq!(result[1], vec!["test2", "test5"]);
    assert_eq!(result[2], vec!["test3"]);

    let total_tests: usize = result.iter().map(|w| w.len()).sum();
    assert_eq!(total_tests, 5);
}

#[test]
fn test_worksteal_scheduler_interleaving() {
    let scheduler = WorkStealScheduler;
    let tests: Vec<String> =
        vec!["fast_test1".into(), "slow_test1".into(), "fast_test2".into(), "slow_test2".into()];
    let result = scheduler.distribute(tests, 2).unwrap();

    assert_eq!(result.len(), 2);
    assert_eq!(result[0], vec!["fast_test1", "fast_test2"]);
    assert_eq!(result[1], vec!["slow_test1", "slow_test2"]);
}

#[test]
fn test_no_scheduler_single_group() {
    let scheduler = NoScheduler;
    let tests = vec!["test1".to_string(), "test2".to_string(), "test3".to_string()];
    let result = scheduler.distribute(tests.clone(), 5).unwrap();

    assert_eq!(result.len(), 1);
    assert_eq!(result[0], tests);
}

#[test]
fn test_no_scheduler_empty_tests() {
    let scheduler = NoScheduler;
    let result: Vec<Vec<String>> = scheduler.distribute(vec![], 3).unwrap();
    assert!(result.is_empty());
}

#[test]
fn test_extract_scope() {
    assert_eq!(
        extract_scope("tests/test_file.py::TestClass::test_method"),
        "tests/test_file.py::TestClass"
    );
    assert_eq!(extract_scope("tests/test_file.py::test_function"), "tests/test_file.py");
    assert_eq!(extract_scope("tests/test_file.py"), "tests/test_file.py");
}

#[test]
fn test_extract_file() {
    assert_eq!(
        extract_file("tests/test_file.py::TestClass::test_method"),
        "tests/test_file.py"
    );
    assert_eq!(extract_file("tests/test_file.py::test_function"), "tests/test_file.py");
    assert_eq!(extract_file("tests/test_file.py"), "tests/test_file.py");
}

#[test]
fn test_create_scheduler_all_modes() {
    let load_scheduler = create_scheduler_string(DistributionMode::Load);
    let loadscope_scheduler = create_scheduler_string(DistributionMode::LoadScope);
    let loadfile_scheduler = create_scheduler_string(DistributionMode::LoadFile);
    let loadgroup_scheduler = create_scheduler_string(DistributionMode::LoadGroup);
    let worksteal_scheduler = create_scheduler_string(DistributionMode::WorkSteal);
    let no_scheduler = create_scheduler_string(DistributionMode::No);

    let tests = vec!["test1".to_string(), "test2".to_string()];

    assert_eq!(load_scheduler.distribute(tests.clone(), 2).unwrap().len(), 2);
    assert_eq!(loadscope_scheduler.distribute(tests.clone(), 2).unwrap().len(), 2);
    assert_eq!(loadfile_scheduler.distribute(tests.clone(), 2).unwrap().len(), 2);
    assert_eq!(loadgroup_scheduler.distribute(tests.clone(), 2).unwrap().len(), 2);
    assert_eq!(worksteal_scheduler.distribute(tests.clone(), 2).unwrap().len(), 2);
    assert_eq!(no_scheduler.distribute(tests.clone(), 2).unwrap().len(), 1);
}

#[test]
fn test_deterministic_distribution() {
    let scheduler = LoadFileScheduler;
    let tests: Vec<String> = vec![
        "z_file.py::test1".into(),
        "a_file.py::test2".into(),
        "m_file.py::test3".into(),
        "z_file.py::test4".into(),
        "a_file.py::test5".into(),
    ];

    let result1 = scheduler.distribute(tests.clone(), 2).unwrap();
    let result2 = scheduler.distribute(tests.clone(), 2).unwrap();
    let result3 = scheduler.distribute(tests.clone(), 2).unwrap();

    assert_eq!(result1, result2);
    assert_eq!(result2, result3);

    for (worker_idx, worker_tests) in result1.iter().enumerate() {
        let mut files_in_worker: HashSet<String> = HashSet::new();
        for test in worker_tests {
            files_in_worker.insert(extract_file(test));
        }

        let mut files_in_worker2: HashSet<String> = HashSet::new();
        for test in &result2[worker_idx] {
            files_in_worker2.insert(extract_file(test));
        }

        assert_eq!(files_in_worker, files_in_worker2);
    }

    // groups in ascending order of file: a, m, z; a and z share the first worker
    assert_eq!(
        result1[0],
        vec!["a_file.py::test2", "a_file.py::test5", "z_file.py::test1", "z_file.py::test4"]
    );
    assert_eq!(result1[1], vec!["m_file.py::test3"]);
}

#[test]
fn test_loadgroup_scheduler_groups_by_xdist_group() {
    let scheduler = LoadGroupScheduler;

    let functions = vec![
        function("test1", "file1.py::test1", "file1.py", 1, Some("database")),
        function("test2", "file1.py::test2", "file1.py", 2, Some("database")),
        function("test3", "file2.py::test3", "file2.py", 1, Some("ui")),
        function("test4", "file2.py::test4", "file2.py", 2, None),
    ];

    let result = scheduler.distribute(functions, 3).unwrap();

    assert_eq!(result.len(), 3);

    let mut group_to_worker: HashMap<String, usize> = HashMap::new();

    for (worker_idx, worker_functions) in result.iter().enumerate() {
        for func in worker_functions {
            let group = func
                .xdist_group
                .clone()
                .unwrap_or_else(|| format!("__ungrouped__{}", func.nodeid));
            if let Some(&existing_worker) = group_to_worker.get(&group) {
                assert_eq!(existing_worker, worker_idx);
            } else {
                group_to_worker.insert(group, worker_idx);
            }
        }
    }

    let total_functions: usize = result.iter().map(|w| w.len()).sum();
    assert_eq!(total_functions, 4);

    // one batch holds both database items in input order, one the item
    // without a tag, one the ui item
    let ids: Vec<Vec<&str>> =
        result.iter().map(|b| b.iter().map(|f| f.nodeid.as_str()).collect()).collect();
    assert_eq!(
        ids,
        vec![vec!["file1.py::test1", "file1.py::test2"], vec!["file2.py::test4"], vec!["file2.py::test3"]]
    );
}

#[test]
fn test_loadgroup_scheduler_single_worker() {
    let scheduler = LoadGroupScheduler;

    let functions = vec![
        function("test1", "file1.py::test1", "file1.py", 1, Some("group1")),
        function("test2", "file2.py::test2", "file2.py", 1, Some("group2")),
    ];

    let result = scheduler.distribute(functions.clone(), 1).unwrap();
    assert_eq!(result.len(), 1);
    assert_eq!(result[0].len(), 2);
}

#[test]
fn test_loadgroup_scheduler_empty_functions() {
    let scheduler = LoadGroupScheduler;
    let result: Vec<Vec<Function>> = scheduler.distribute(vec![], 4).unwrap();
    assert!(result.is_empty());
}

#[test]
fn test_loadgroup_scheduler_zero_workers() {
    let scheduler = LoadGroupScheduler;

    let functions = vec![function("test1", "file1.py::test1", "file1.py", 1, Some("group1"))];

    let result = scheduler.distribute(functions, 0);
    assert!(matches!(result, Err(SchedulerError::InvalidWorkerCount { requested: 0, .. })));
}

#[test]
fn test_string_scheduler_basic() {
    let tests = vec![
        "test_module.py::test_one".to_string(),
        "test_module.py::test_two".to_string(),
        "test_module.py::test_three".to_string(),
        "test_module.py::test_four".to_string(),
    ];

    let scheduler = create_scheduler_string(DistributionMode::Load);
    let result = scheduler.distribute(tests.clone(), 2).unwrap();

    assert_eq!(result.len(), 2);
    assert_eq!(result[0].len() + result[1].len(), 4);

    let mut all_tests: Vec<String> = result.into_iter().flatten().collect();
    all_tests.sort();
    let mut expected = tests;
    expected.sort();
    assert_eq!(all_tests, expected);
}

#[test]
fn test_function_scheduler_with_groups() {
    let functions = vec![
        function("test_db_1", "tests/test_db.py::test_db_1", "tests/test_db.py", 10, Some("database")),
        function("test_db_2", "tests/test_db.py::test_db_2", "tests/test_db.py", 20, Some("database")),
        function("test_ui_1", "tests/test_ui.py::test_ui_1", "tests/test_ui.py", 5, Some("ui")),
        function("test_api", "tests/test_api.py::test_api", "tests/test_api.py", 15, None),
    ];

    let scheduler = LoadGroupScheduler;
    let result = scheduler.distribute(functions, 3).unwrap();

    assert_eq!(result.len(), 3);

    for worker_functions in &result {
        if worker_functions.len() > 1 {
            let first_group = &worker_functions[0].xdist_group;
            for func in worker_functions.iter().skip(1) {
                assert_eq!(&func.xdist_group, first_group);
            }
        }
    }

    let by_mode = create_scheduler_function(DistributionMode::LoadGroup);
    let again = by_mode
        .distribute(
            vec![
                function("a", "f.py::a", "f.py", 1, Some("g")),
                function("b", "f.py::b", "f.py", 2, None),
                function("c", "f.py::c", "f.py", 3, Some("g")),
            ],
            2,
        )
        .unwrap();
    assert_eq!(again.len(), 2);
    assert_eq!(again[0].len(), 1);
    assert_eq!(again[0][0].nodeid, "f.py::b");
    assert_eq!(again[1][0].nodeid, "f.py::a");
    assert_eq!(again[1][1].nodeid, "f.py::c");
}

#[test]
fn test_scheduler_error_handling() {
    let scheduler = create_scheduler_string(DistributionMode::Load);

    let result = scheduler.distribute(vec!["test".to_string()], 0);
    assert!(result.is_err());

    let result = scheduler.distribute(vec![], 5).unwrap();
    assert!(result.is_empty());
}

#[test]
fn test_all_distribution_modes() {
    let tests = vec![
        "test_a.py::test_1".to_string(),
        "test_a.py::test_2".to_string(),
        "test_b.py::test_3".to_string(),
        "test_b.py::test_4".to_string(),
    ];

    for mode in &[
        DistributionMode::Load,
        DistributionMode::LoadScope,
        DistributionMode::LoadFile,
        DistributionMode::LoadGroup,
        DistributionMode::WorkSteal,
        DistributionMode::No,
    ] {
        let scheduler = create_scheduler_string(*mode);
        let result = scheduler.distribute(tests.clone(), 2);

        assert!(result.is_ok(), "Mode {:?} failed", mode);
        let distributed = result.unwrap();

        if *mode == DistributionMode::No {
            assert_eq!(distributed.len(), 1, "No mode should return single group");
        } else {
            assert!(!distributed.is_empty(), "Mode {:?} returned empty", mode);
        }

        let total: usize = distributed.iter().map(|w| w.len()).sum();
        assert_eq!(total, tests.len(), "Mode {:?} lost tests", mode);
        assert!(distributed.len() <= 2);
        assert!(distributed.iter().all(|batch| !batch.is_empty()));
    }
}

#[test]
fn test_scheduler_error_types() {
    let scheduler = LoadScheduler;

    let result = scheduler.distribute(vec!["test".to_string()], 0);
    match result {
        Err(SchedulerError::InvalidWorkerCount { requested, min, max }) => {
            assert_eq!(requested, 0);
            assert_eq!(min, 1);
            assert_eq!(max, usize::MAX);
        }
        _ => panic!("Expected InvalidWorkerCount error"),
    }

    let result = scheduler.distribute(Vec::<String>::new(), 4);
    assert!(result.is_ok());
    assert!(result.unwrap().is_empty());
}

#[test]
fn test_end_to_end_test_distribution() {
    let tests = vec![
        "test_file1.py::test_function1".to_string(),
        "test_file1.py::test_function2".to_string(),
        "test_file2.py::TestClass::test_method1".to_string(),
        "test_file2.py::TestClass::test_method2".to_string(),
        "test_file3.py::test_function3".to_string(),
    ];

    let num_processes = Some(NumProcesses::Count(3));
    let max_processes = None;
    let worker_count = determine_worker_count(num_processes, max_processes);
    assert_eq!(worker_count, 3);

    let scheduler = create_scheduler_string(DistributionMode::Load);
    let batches = scheduler.distribute(tests.clone(), worker_count).unwrap();

    assert_eq!(batches.len(), 3);

    let total_distributed: usize = batches.iter().map(|batch| batch.len()).sum();
    assert_eq!(total_distributed, tests.len());

    for batch in &batches {
        assert!(!batch.is_empty());
    }
}

#[test]
fn test_worker_count_determination_edge_cases() {
    let worker_count = determine_worker_count(Some(NumProcesses::Auto), Some(1));
    assert_eq!(worker_count, 1);

    let worker_count = determine_worker_count(Some(NumProcesses::Count(10)), Some(3));
    assert_eq!(worker_count, 3);

    // a count that was asked for is never capped below one worker
    let worker_count = determine_worker_count(Some(NumProcesses::Count(5)), Some(0));
    assert_eq!(worker_count, 1);
}

#[test]
fn test_worker_count_rule() {
    assert_eq!(worker_count_for(None, None, 4, 8), 1);
    assert_eq!(worker_count_for(None, Some(0), 4, 8), 0);
    assert_eq!(worker_count_for(Some(NumProcesses::Auto), None, 4, 8), 4);
    assert_eq!(worker_count_for(Some(NumProcesses::Logical), None, 4, 8), 8);
    assert_eq!(worker_count_for(Some(NumProcesses::Logical), Some(6), 4, 8), 6);
    assert_eq!(worker_count_for(Some(NumProcesses::Count(0)), None, 4, 8), 1);
    assert_eq!(worker_count_for(Some(NumProcesses::Count(7)), Some(9), 4, 8), 7);
    assert!(determine_worker_count(Some(NumProcesses::Auto), None) >= 1);
    assert!(determine_worker_count(Some(NumProcesses::Logical), None) >= 1);
}

#[test]
fn test_load_scheduler_properties() {
    let scheduler = LoadScheduler;

    let tests = vec![
        "test1".to_string(),
        "test2".to_string(),
        "test3".to_string(),
        "test4".to_string(),
        "test5".to_string(),
        "test6".to_string(),
    ];

    let result1 = scheduler.distribute(tests.clone(), 3).unwrap();
    let result2 = scheduler.distribute(tests.clone(), 3).unwrap();

    assert_eq!(result1, result2);

    assert_eq!(result1[0].len(), 2);
    assert_eq!(result1[1].len(), 2);
    assert_eq!(result1[2].len(), 2);
}

#[test]
fn test_scheduler_with_more_workers_than_tests() {
    let scheduler = LoadScheduler;
    let tests = vec!["test1".to_string(), "test2".to_string()];

    let result = scheduler.distribute(tests, 5).unwrap();

    assert_eq!(result.len(), 2);
    assert_eq!(result[0], vec!["test1"]);
    assert_eq!(result[1], vec!["test2"]);
}

#[test]
fn test_distribution_mode_parsing() {
    let mode = "load".parse::<DistributionMode>();
    assert!(mode.is_ok());
    assert!(matches!(mode.unwrap(), DistributionMode::Load));

    for valid_mode in ["loadfile", "loadscope", "loadgroup", "worksteal", "no"] {
        assert!(valid_mode.parse::<DistributionMode>().is_ok());
    }
    for invalid_mode in ["invalid", "", "Load", "load "] {
        let result = invalid_mode.parse::<DistributionMode>();
        assert!(result.is_err());
        let error = result.unwrap_err().to_string();
        assert!(error.contains("Unsupported distribution mode"));
    }
}

#[test]
fn test_realistic_test_distribution_scenario() {
    let mut tests = Vec::new();

    for i in 1..=10 {
        tests.push(format!("test_module_{}.py::test_function_{i}", i % 3 + 1));
    }

    for i in 1..=8 {
        tests.push(format!("test_classes.py::TestClass{i}::test_method"));
    }

    let scheduler = LoadScheduler;
    let result = scheduler.distribute(tests.clone(), 4).unwrap();

    assert_eq!(result.len(), 4);

    let total_tests: usize = result.iter().map(|batch| batch.len()).sum();
    assert_eq!(total_tests, tests.len());

    let max_batch_size = result.iter().map(|batch| batch.len()).max().unwrap();
    let min_batch_size = result.iter().map(|batch| batch.len()).min().unwrap();
    assert!(max_batch_size - min_batch_size <= 1);
}

#[test]
fn test_partition_holds_for_every_mode_and_worker_count() {
    let tests = strings(&[
        "b.py::TestB::test_2",
        "a.py::test_1",
        "b.py::TestB::test_1",
        "c.py::test_9",
        "a.py::TestA::test_3",
        "a.py::test_1",
        "b.py::test_0",
    ]);
    for mode in DistributionMode::all() {
        for k in 1..10usize {
            let batches = create_scheduler_string(mode).distribute(tests.clone(), k).unwrap();
            assert!(batches.len() <= k);
            assert!(batches.iter().all(|b| !b.is_empty()));
            let mut all: Vec<String> = batches.iter().flatten().cloned().collect();
            all.sort();
            let mut expected = tests.clone();
            expected.sort();
            assert_eq!(all, expected);
            let again = create_scheduler_string(mode).distribute(tests.clone(), k).unwrap();
            assert_eq!(batches, again);
        }
    }
}

#[test]
fn test_grouping_orders_groups_by_key() {
    let items = vec![1u32, 2, 3, 4, 5, 6];
    let keys = strings(&["b", "a", "b", "c", "a", "ab"]);
    let groups = group_items_by_key(items, &keys);
    assert_eq!(groups, vec![vec![2, 5], vec![6], vec![1, 3], vec![4]]);
    let none: Vec<Vec<u32>> = group_items_by_key(vec![], &vec![]);
    assert!(none.is_empty());
}

#[test]
fn test_groups_are_dealt_round_robin() {
    let groups = vec![vec![1u32, 2], vec![], vec![3], vec![4, 5], vec![6]];
    assert_eq!(distribute_groups_to_workers(groups.clone(), 2), vec![vec![1, 2, 3, 6], vec![4, 5]]);
    assert_eq!(
        distribute_groups_to_workers(groups.clone(), 4),
        vec![vec![1, 2, 6], vec![3], vec![4, 5]]
    );
    assert!(distribute_groups_to_workers(groups, 0).is_empty());
    assert_eq!(distribute_round_robin(vec![1u32, 2, 3], 2), vec![vec![1, 3], vec![2]]);
}

#[test]
fn test_validate_inputs_and_workers() {
    let items = vec![1u32];
    assert!(validate_inputs(&items, 2).is_ok());
    assert!(matches!(
        validate_inputs(&items, 0),
        Err(SchedulerError::InvalidWorkerCount { requested: 0, min: 1, max: usize::MAX })
    ));
    let none: Vec<u32> = vec![];
    assert!(matches!(validate_inputs(&none, 2), Err(SchedulerError::EmptyInput)));
    assert!(matches!(validate_inputs(&none, 0), Err(SchedulerError::InvalidWorkerCount { .. })));
    let workers: Vec<Vec<u32>> = create_workers(3);
    assert_eq!(workers, vec![Vec::<u32>::new(), vec![], vec![]]);
    assert_eq!(Scheduler::<String>::min_workers(&LoadScheduler), 1);
    assert_eq!(Scheduler::<String>::recommend_workers(&NoScheduler, 10), 1);
    assert!(Scheduler::<String>::recommend_workers(&LoadScheduler, 3) <= 3);
}

#[test]
fn test_workers_on_takes_the_smaller_count() {
    assert_eq!(rtest::scheduler::workers_on(3, 8), 3);
    assert_eq!(rtest::scheduler::workers_on(10, 4), 4);
    assert_eq!(rtest::scheduler::workers_on(4, 4), 4);
    assert_eq!(rtest::scheduler::workers_on(0, 4), 0);
    let recommended = Scheduler::<String>::recommend_workers(&LoadScheduler, 2);
    assert!(recommended >= 1 && recommended <= 2);
    assert_eq!(Scheduler::<String>::recommend_workers(&LoadFileScheduler, 0), 0);
}

#[test]
fn test_from_str_agrees_with_parse() {
    assert_eq!(DistributionMode::from_str("worksteal").ok(), Some(DistributionMode::WorkSteal));
    assert_eq!(DistributionMode::from_str("no").ok(), Some(DistributionMode::No));
    match DistributionMode::from_str("fast") {
        Err(e) => assert_eq!(
            e.to_string(),
            "Unsupported distribution mode: 'fast'. Supported modes: load, loadscope, loadfile, loadgroup, worksteal, no"
        ),
        Ok(_) => panic!("an unknown mode was accepted"),
    }
}
