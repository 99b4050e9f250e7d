use rtest::collection::config::{declared_values, CollectionConfig};
use rtest::collection::error::{CollectionError, CollectionOutcome, CollectionWarning};
use rtest::collection::nodes::{collect_one_node, CollectReport};
use rtest::collection::session::{
    test_info_to_function, DirEntry, ListingFailure, PathKind, PathResult, Session,
};
use rtest::collection::types::{Collector, CollectorNode, Directory, Function, Location, Module};
use rtest::collection_integration::{
    collect_items_recursive, collect_tests_rust, collect_tests_rust_with_options, insert_sorted,
    Collected, CollectionErrors, CollectionOptions,
};
use rtest::collection_report::{render_collection_results, render_uncertain_files};
use rtest::collection_service::{ServiceError, TestCollectionService};
use rtest::driver::{
    after_collection, plan_batches, runs_without_collection, spawn_batches, split_root_argument,
    NextStep,
};
use rtest::python_discovery::discovery::TestInfo;
use rtest::python_discovery::module_resolver::{choose_candidate, path_to_module_path, ModuleResolver};
use rtest::python_discovery::stdlib::is_stdlib_module_to_skip;
use rtest::scheduler::DistributionMode;
use rtest::worker::WorkerPool;

fn strings(items: &[&str]) -> Vec<String> {
    items.iter().map(|s| s.to_string()).collect()
}

fn item(nodeid: &str, parametrized: bool, uncertain: bool) -> Function {
    let name = nodeid.rsplit("::").next().unwrap().to_string();
    Function {
        name: name.clone(),
        nodeid: nodeid.to_string(),
        location: Location {
            path: nodeid.split("::").next().unwrap().to_string(),
            line: Some(1),
            name,
        },
        is_parametrized: parametrized,
        has_uncertain_params: uncertain,
        xdist_group: None,
    }
}

fn module(nodeid: &str) -> CollectorNode {
    CollectorNode::Module(Module { path: format!("/root/{}", nodeid), nodeid: nodeid.to_string() })
}

fn directory(nodeid: &str) -> CollectorNode {
    CollectorNode::Directory(Directory {
        path: format!("/root/{}", nodeid),
        nodeid: nodeid.to_string(),
    })
}

fn passed(node: CollectorNode, children: Vec<Collected>) -> Collected {
    Collected::Passed { node, children }
}

fn leaf(nodeid: &str) -> Collected {
    Collected::Item(item(nodeid, false, false))
}

fn sample_tree() -> Vec<Collected> {
    vec![passed(
        directory("tests"),
        vec![
            passed(
                module("tests/test_a.py"),
                vec![
                    leaf("tests/test_a.py::test_one"),
                    Collected::Item(item("tests/test_a.py::test_p[1]", true, false)),
                    Collected::Item(item("tests/test_a.py::test_p[2]", true, false)),
                ],
            ),
            Collected::Failed {
                node: module("tests/test_bad.py"),
                error: CollectionError::ParseError("Failed to parse tests/test_bad.py: oops".into()),
            },
            passed(
                directory("tests/sub"),
                vec![passed(
                    module("tests/sub/test_b.py"),
                    vec![
                        Collected::Item(item("tests/sub/test_b.py::TestB::test_e[E.A]", true, true)),
                        Collected::Item(item("tests/sub/test_b.py::test_raw", true, true)),
                    ],
                )],
            ),
            passed(module("tests/test_z.py"), vec![]),
            Collected::Failed {
                node: directory("tests/locked"),
                error: CollectionError::IoError("input/output error".into()),
            },
        ],
    )]
}

#[test]
fn test_service_creation() {
    let service = TestCollectionService::new("/tmp".to_string());
    assert_eq!(service.rootpath(), "/tmp");
    assert_eq!(service.config().python_files, vec!["test_*.py", "*_test.py"]);
    assert_eq!(service.config().python_classes, vec!["Test*"]);
    assert_eq!(service.config().python_functions, vec!["test*"]);
    assert_eq!(service.config().norecursedirs, CollectionConfig::default().norecursedirs);
    assert!(service.config().testpaths.is_empty());
    assert!(service.config().ignore_patterns.is_empty());
    let mut config = CollectionConfig::default();
    config.python_files = strings(&["check_*.py"]);
    let mut service = TestCollectionService::with_config("/tmp".to_string(), config.clone());
    assert_eq!(service.config().python_files, vec!["check_*.py"]);
    service.set_config(CollectionConfig::default());
    assert_eq!(service.config().python_files, vec!["test_*.py", "*_test.py"]);
    assert_eq!(service.rootpath(), "/tmp");
    let session = service.create_session();
    assert_eq!(session.rootpath, "/tmp");
    assert_eq!(session.config.python_classes, vec!["Test*"]);
}

#[test]
fn test_validate_paths() {
    let service = TestCollectionService::new("/tmp".to_string());

    let result = service.validate_paths(&strings(&["/tmp", "sub/dir"]), &vec![true, true]);
    assert_eq!(result.unwrap(), vec!["/tmp", "/tmp/sub/dir"]);

    let result = service.validate_paths(&strings(&["/non/existent/path"]), &vec![false]);
    match result {
        Err(ServiceError::Configuration(message)) => {
            assert_eq!(message, "Path does not exist: /non/existent/path")
        }
        _ => panic!("expected a configuration error"),
    }
    let result = service.validate_paths(&strings(&["a", "b", "c"]), &vec![true, false]);
    assert!(matches!(result, Err(ServiceError::Configuration(m)) if m == "Path does not exist: b"));
    let result = service.validate_paths(&strings(&["a", "b"]), &vec![true]);
    assert!(matches!(result, Err(ServiceError::Configuration(m)) if m == "Path does not exist: b"));
    assert_eq!(
        ServiceError::Configuration("x".into()).to_string(),
        "Configuration error: x"
    );
    assert_eq!(ServiceError::Io("x".into()).to_string(), "IO error: x");
    let from: ServiceError = CollectionError::SkipError("s".into()).into();
    assert_eq!(from.to_string(), "Collection error: Skip: s");
}

#[test]
fn test_rust_collection_finds_all_tests() {
    let (nodes, errors) = collect_tests_rust(&sample_tree());
    assert_eq!(
        nodes,
        vec![
            "tests/test_a.py::test_one",
            "tests/test_a.py::test_p[1]",
            "tests/test_a.py::test_p[2]",
            "tests/sub/test_b.py::TestB::test_e[E.A]",
            "tests/sub/test_b.py::test_raw",
        ]
    );
    assert_eq!(errors.errors.len(), 2);
    assert_eq!(errors.errors[0].0, "tests/test_bad.py");
    assert!(matches!(&errors.errors[0].1, CollectionError::ParseError(m) if m.contains("oops")));
    assert_eq!(errors.errors[1].0, "tests/locked");
    // the file that failed and the file with uncertain items, ascending
    assert_eq!(errors.uncertain_files, vec!["tests/sub/test_b.py", "tests/test_bad.py"]);
    assert!(errors.warnings.is_empty());

    let all = CollectionOptions { all_parametrized_uncertain: true };
    let (again, errors) = collect_tests_rust_with_options(&sample_tree(), &all);
    assert_eq!(again, nodes);
    assert_eq!(
        errors.uncertain_files,
        vec!["tests/sub/test_b.py", "tests/test_a.py", "tests/test_bad.py"]
    );
    assert!(!CollectionOptions::default().all_parametrized_uncertain);
}

#[test]
fn test_collection_with_no_tests() {
    let (nodes, errors) = collect_tests_rust(&vec![]);
    assert!(nodes.is_empty());
    assert!(errors.errors.is_empty());
    assert!(errors.uncertain_files.is_empty());
    let (nodes, errors) = collect_tests_rust(&vec![passed(directory(""), vec![])]);
    assert!(nodes.is_empty());
    assert!(errors.errors.is_empty());
    assert_eq!(render_collection_results(&nodes, &errors), vec!["No tests collected."]);
}

#[test]
fn test_collection_with_syntax_errors_returns_error() {
    let trees = vec![
        passed(module("test_ok.py"), vec![leaf("test_ok.py::test_fine")]),
        Collected::Failed {
            node: module("test_broken.py"),
            error: CollectionError::ParseError("Failed to parse test_broken.py: bad".into()),
        },
    ];
    let (nodes, errors) = collect_tests_rust(&trees);
    assert_eq!(nodes, vec!["test_ok.py::test_fine"]);
    assert_eq!(errors.errors.len(), 1);
    assert_eq!(errors.uncertain_files, vec!["test_broken.py"]);
    // with an error collected, the run ends with 1 even where only
    // collection was asked for
    assert_eq!(
        after_collection(errors.errors.len(), nodes.len(), true, 4, DistributionMode::Load),
        NextStep::Exit(1)
    );
    let lines = render_collection_results(&nodes, &errors);
    assert_eq!(
        lines,
        vec![
            "===================================== ERRORS ======================================",
            "\x1b[1;31m_ ERROR collecting test_broken.py _\x1b[0m",
            "\x1b[31mE   Failed to parse test_broken.py: bad\x1b[0m",
            "!!!!!!!!!!!!!!!!!!!!! Warning: 1 errors during collection !!!!!!!!!!!!!!!!!!!!!",
            "collected 1 item / 1 error",
            "",
            "  test_ok.py::test_fine",
        ]
    );
}

#[test]
fn test_display_collection_results() {
    let nodes = strings(&["a.py::test_1", "a.py::test_2"]);
    let errors = CollectionErrors {
        errors: vec![
            ("b.py".to_string(), CollectionError::ImportError("no module".into())),
            ("c".to_string(), CollectionError::IoError("gone".into())),
        ],
        warnings: vec![CollectionWarning {
            file_path: "a.py".into(),
            line: 3,
            message: "cannot collect test class 'TestX' because it has a __init__ constructor"
                .into(),
        }],
        uncertain_files: vec![],
    };
    let lines = render_collection_results(&nodes, &errors);
    assert_eq!(
        lines,
        vec![
            "===================================== ERRORS ======================================",
            "\x1b[1;31m_ ERROR collecting b.py _\x1b[0m",
            "\x1b[31mE   ImportError: no module\x1b[0m",
            "\x1b[1;31m_ ERROR collecting c _\x1b[0m",
            "\x1b[31mE   IO Error: gone\x1b[0m",
            "!!!!!!!!!!!!!!!!!!!!! Warning: 2 errors during collection !!!!!!!!!!!!!!!!!!!!!",
            "collected 2 items / 2 errors / 1 warning",
            "",
            "  a.py::test_1",
            "  a.py::test_2",
            "",
            "=============================== warnings summary ===============================",
            "\x1b[33ma.py:3: cannot collect test class 'TestX' because it has a __init__ constructor\x1b[0m",
            "-- Docs: https://docs.pytest.org/en/stable/how-to/capture-warnings.html",
        ]
    );
    let only_warning = CollectionErrors {
        errors: vec![],
        warnings: vec![CollectionWarning { file_path: "a.py".into(), line: 1, message: "m".into() }],
        uncertain_files: vec![],
    };
    let lines = render_collection_results(&vec![], &only_warning);
    assert_eq!(lines[0], "1 warning");
    assert_eq!(lines.len(), 5);
}

#[test]
fn test_collection_service_basic() {
    let service = TestCollectionService::new("/root".to_string());
    let (nodes, errors) = service.collect_nodeids(&sample_tree()).unwrap();
    assert_eq!(nodes.len(), 5);
    assert_eq!(errors.errors.len(), 2);
    let (functions, errors) = service.collect_functions(&sample_tree()).unwrap();
    assert_eq!(functions.len(), 5);
    assert_eq!(functions[3].nodeid, "tests/sub/test_b.py::TestB::test_e[E.A]");
    assert!(functions[3].has_uncertain_params);
    assert_eq!(errors.errors.len(), 2);
    let (tests, errors, stats) = service.collect_tests(&sample_tree(), 12).unwrap();
    assert_eq!(tests.len(), 5);
    assert_eq!(tests[0].nodeid, "tests/test_a.py::test_one");
    assert_eq!(tests[0].function.as_ref().unwrap().name, "test_one");
    assert_eq!(errors.errors.len(), 2);
    assert_eq!(stats.total_tests, 5);
    assert_eq!(stats.total_errors, 2);
    assert_eq!(stats.total_files, 4);
    assert_eq!(stats.duration_ms, 12);
}

#[test]
fn test_collection_service_empty_directory() {
    let service = TestCollectionService::new("/root".to_string());
    let (tests, errors, stats) =
        service.collect_tests(&vec![passed(directory("empty"), vec![])], 0).unwrap();
    assert!(tests.is_empty());
    assert!(errors.errors.is_empty());
    assert_eq!((stats.total_files, stats.total_tests, stats.total_errors), (0, 0, 0));
}

#[test]
fn test_flattening_adds_to_what_was_found() {
    let mut nodes = strings(&["before"]);
    let mut errors = CollectionErrors {
        errors: vec![("x".to_string(), CollectionError::SkipError("s".into()))],
        warnings: vec![],
        uncertain_files: vec![],
    };
    let mut files = strings(&["m.py", "x.py"]);
    for tree in sample_tree() {
        collect_items_recursive(&tree, &mut nodes, &mut errors, false, &mut files);
    }
    assert_eq!(nodes.len(), 6);
    assert_eq!(nodes[0], "before");
    assert_eq!(errors.errors.len(), 3);
    assert_eq!(files, vec!["m.py", "tests/sub/test_b.py", "tests/test_bad.py", "x.py"]);
    insert_sorted(&mut files, "a.py".to_string());
    insert_sorted(&mut files, "x.py".to_string());
    insert_sorted(&mut files, "z.py".to_string());
    assert_eq!(
        files,
        vec!["a.py", "m.py", "tests/sub/test_b.py", "tests/test_bad.py", "x.py", "z.py"]
    );
}

#[test]
fn test_session_decides_what_is_collected() {
    let session = Session::new("/root".to_string());
    assert!(session.is_python_file("/root/tests/test_a.py"));
    assert!(session.is_python_file("/root/tests/a_test.py"));
    assert!(!session.is_python_file("/root/tests/conftest.py"));
    assert!(!session.is_python_file("/root/test_dir/helper.py"));
    assert!(session.should_ignore_path("/root/pkg/__pycache__", true));
    assert!(session.should_ignore_path("/root/pkg/__pycache__", false));
    assert!(session.should_ignore_path("/root/.git", true));
    assert!(!session.should_ignore_path("/root/.hidden_test.py", false));
    assert!(session.should_ignore_path("/root/node_modules", true));
    assert!(session.should_ignore_path("/root/a.egg", true));
    assert!(!session.should_ignore_path("/root/tests", true));
    let mut custom = Session::new("/root".to_string());
    custom.config.ignore_patterns = strings(&["legacy"]);
    assert!(custom.should_ignore_path("/root/legacy_code/test_a.py", false));
    assert!(custom.collect_path("/root/legacy_code/test_a.py", PathKind::File).is_none());

    match session.collect_path("/root/tests", PathKind::Directory) {
        Some(CollectorNode::Directory(d)) => {
            assert_eq!(d.nodeid, "tests");
            assert_eq!(d.path, "/root/tests");
        }
        _ => panic!("expected a directory"),
    }
    match session.collect_path("/root/tests/test_a.py", PathKind::File) {
        Some(CollectorNode::Module(m)) => assert_eq!(m.nodeid, "tests/test_a.py"),
        _ => panic!("expected a module"),
    }
    assert!(session.collect_path("/root/tests/data.txt", PathKind::File).is_none());
    assert!(session.collect_path("/root/tests/test_a.py", PathKind::Other).is_none());
    assert!(session.collect_path("/root/venv", PathKind::Directory).is_none());

    assert_eq!(session.resolve_paths(&vec![], &vec![]), vec!["/root"]);
    assert_eq!(
        session.resolve_paths(&strings(&["tests", "/abs/test_x.py"]), &strings(&["ignored"])),
        vec!["/root/tests", "/abs/test_x.py"]
    );
    assert_eq!(session.resolve_paths(&vec![], &strings(&["unit", "it"])), vec!["/root/unit", "/root/it"]);
    let mut with_paths = Session::new("/root".to_string());
    with_paths.config.testpaths = strings(&["/elsewhere"]);
    assert_eq!(with_paths.resolve_paths(&vec![], &vec![]), vec!["/elsewhere"]);
}

#[test]
fn test_directory_entries_come_in_path_order() {
    let session = Session::new("/root".to_string());
    let entry = |path: &str, kind: PathKind| DirEntry { path: path.to_string(), kind };
    let listing = Ok(vec![
        entry("/root/t/test_z.py", PathKind::File),
        entry("/root/t/sub", PathKind::Directory),
        entry("/root/t/readme.md", PathKind::File),
        entry("/root/t/__pycache__", PathKind::Directory),
        entry("/root/t/test_a.py", PathKind::File),
        entry("/root/t/socket", PathKind::Other),
        entry("/root/t/Test_upper.py", PathKind::File),
        entry("/root/t/test_m.py", PathKind::File),
    ]);
    let nodes = session.collect_directory(&listing).unwrap();
    let ids: Vec<&str> = nodes.iter().map(|n| n.nodeid()).collect();
    assert_eq!(ids, vec!["t/sub", "t/test_a.py", "t/test_m.py", "t/test_z.py"]);
    assert!(matches!(nodes[0], CollectorNode::Directory(_)));

    // the order of the listing does not matter
    let reversed = Ok(vec![
        entry("/root/t/test_m.py", PathKind::File),
        entry("/root/t/test_a.py", PathKind::File),
        entry("/root/t/sub", PathKind::Directory),
        entry("/root/t/test_z.py", PathKind::File),
    ]);
    let again = session.collect_directory(&reversed).unwrap();
    let ids_again: Vec<&str> = again.iter().map(|n| n.nodeid()).collect();
    assert_eq!(ids_again, ids);

    assert!(session.collect_directory(&Err(ListingFailure::PermissionDenied)).unwrap().is_empty());
    assert!(matches!(
        session.collect_directory(&Err(ListingFailure::Other("stale handle".into()))),
        Err(CollectionError::IoError(m)) if m == "stale handle"
    ));
}

#[test]
fn test_modules_give_function_nodes() {
    let session = Session::new("/root".to_string());
    let module = Module::new("/root/tests/test_a.py", "/root");
    assert_eq!(module.nodeid, "tests/test_a.py");
    let info = |name: &str, class: Option<&str>| TestInfo {
        name: name.to_string(),
        line: 7,
        is_method: class.is_some(),
        class_name: class.map(|c| c.to_string()),
        is_parametrized: name.contains('['),
        has_uncertain_params: false,
        xdist_group: Some("db".to_string()),
    };
    let nodes = session
        .collect_module(&module, Ok(vec![info("test_f", None), info("test_m[1-a]", Some("TestC"))]))
        .unwrap();
    let ids: Vec<&str> = nodes.iter().map(|n| n.nodeid()).collect();
    assert_eq!(ids, vec!["tests/test_a.py::test_f", "tests/test_a.py::TestC::test_m[1-a]"]);
    match &nodes[1] {
        CollectorNode::Function(f) => {
            assert_eq!(f.name, "test_m[1-a]");
            assert_eq!(f.location.path, "/root/tests/test_a.py");
            assert_eq!(f.location.line, Some(7));
            assert!(f.is_parametrized);
            assert_eq!(f.xdist_group, Some("db".to_string()));
        }
        _ => panic!("expected a function"),
    }
    assert!(matches!(
        session.collect_module(&module, Err(CollectionError::ParseError("bad".into()))),
        Err(CollectionError::ParseError(m)) if m == "bad"
    ));
    let single = test_info_to_function(&info("test_f", None), "/x/t.py", "t.py");
    assert_eq!(single.nodeid, "t.py::test_f");

    let node = CollectorNode::Module(module);
    let report = collect_one_node(&node, Ok(nodes));
    assert_eq!(report.nodeid, "tests/test_a.py");
    assert_eq!(report.outcome, CollectionOutcome::Passed);
    assert_eq!(report.result.len(), 2);
    assert!(report.longrepr.is_none());
    let failed = collect_one_node(&node, Err(CollectionError::ImportError("m".into())));
    assert_eq!(failed.outcome, CollectionOutcome::Failed);
    assert_eq!(failed.longrepr, Some("Import error: m".to_string()));
    assert!(matches!(failed.error_type, Some(CollectionError::ImportError(_))));
    assert!(failed.result.is_empty());
    let made = CollectReport::new("n".into(), CollectionOutcome::Skipped, None, None, vec![]);
    assert_eq!(made.outcome, CollectionOutcome::Skipped);
}

#[test]
fn test_modules_are_found_below_the_root() {
    let resolver = ModuleResolver::new("/root");
    let module = strings(&["tests", "test_base"]);
    assert_eq!(
        resolver.candidates(&module),
        vec!["/root/tests/test_base.py", "/root/tests/test_base/__init__.py"]
    );
    assert_eq!(
        resolver.resolve(&module, &vec![true, true]),
        Some("/root/tests/test_base.py".to_string())
    );
    assert_eq!(
        resolver.resolve(&module, &vec![false, true]),
        Some("/root/tests/test_base/__init__.py".to_string())
    );
    assert_eq!(resolver.resolve(&module, &vec![false, false]), None);
    assert_eq!(resolver.resolve(&module, &vec![]), None);
    // modules of the standard library are skipped, whatever exists
    assert_eq!(resolver.resolve(&strings(&["unittest"]), &vec![true, true]), None);
    assert_eq!(resolver.resolve(&strings(&["os", "path"]), &vec![true, true]), None);
    assert!(is_stdlib_module_to_skip(&strings(&["unittest", "mock"])));
    assert!(is_stdlib_module_to_skip(&strings(&["typing"])));
    assert!(!is_stdlib_module_to_skip(&strings(&["pytest"])));
    assert!(!is_stdlib_module_to_skip(&strings(&["tests", "os"])));
    assert!(!is_stdlib_module_to_skip(&vec![]));
    assert_eq!(choose_candidate(true, strings(&["a"]), &vec![true]), None);
    assert_eq!(choose_candidate(false, strings(&["a", "b"]), &vec![false, true]), Some("b".to_string()));

    assert_eq!(path_to_module_path("/root/tests/test_a.py", "/root"), vec!["tests", "test_a"]);
    assert_eq!(path_to_module_path("/root/pkg/__init__.py", "/root"), vec!["pkg"]);
    assert_eq!(path_to_module_path("/root/pkg/sub", "/root"), vec!["pkg", "sub"]);
    assert_eq!(path_to_module_path("tests/./x/../test_a.py", ""), vec!["tests", "x", "test_a"]);
    assert_eq!(path_to_module_path("/elsewhere/test_a.py", "/root"), vec!["elsewhere", "test_a"]);
    assert!(path_to_module_path("/root", "/root").is_empty());
}

#[test]
fn test_driver_decisions() {
    let load = DistributionMode::Load;
    assert_eq!(after_collection(1, 10, false, 4, load), NextStep::Exit(1));
    assert_eq!(after_collection(0, 0, false, 4, load), NextStep::Exit(0));
    assert_eq!(after_collection(0, 10, true, 4, load), NextStep::Exit(0));
    assert_eq!(after_collection(0, 10, false, 1, load), NextStep::RunSingleBatch);
    assert_eq!(after_collection(0, 10, false, 4, DistributionMode::No), NextStep::RunSingleBatch);
    assert_eq!(after_collection(0, 10, false, 4, DistributionMode::WorkSteal), NextStep::RunItems);
    assert_eq!(after_collection(0, 10, false, 4, DistributionMode::LoadGroup), NextStep::RunBatches);
    assert_eq!(after_collection(0, 10, false, 0, load), NextStep::RunBatches);

    assert!(runs_without_collection(&strings(&["tests", "a.py::test_x"]), false));
    assert!(!runs_without_collection(&strings(&["tests", "a.py::test_x"]), true));
    assert!(!runs_without_collection(&strings(&["tests", "a.py:test_x"]), false));
    assert!(!runs_without_collection(&vec![], false));

    assert_eq!(
        split_root_argument(strings(&["proj", "-v"]), true),
        (Some("proj".to_string()), strings(&["-v"]))
    );
    assert_eq!(split_root_argument(strings(&["proj", "-v"]), false), (None, strings(&["proj", "-v"])));
    assert_eq!(split_root_argument(strings(&["-v", "x"]), true), (None, strings(&["-v", "x"])));
    assert_eq!(split_root_argument(vec![], true), (None, vec![]));
}

#[test]
fn test_execute_load_distribution() {
    let nodes = strings(&["a.py::t1", "a.py::t2", "b.py::t3", "b.py::t4", "c.py::t5"]);
    let batches = plan_batches(DistributionMode::Load, nodes.clone(), vec![], 2).unwrap();
    assert_eq!(batches, vec![vec!["a.py::t1", "b.py::t3", "c.py::t5"], vec!["a.py::t2", "b.py::t4"]]);
    let by_file = plan_batches(DistributionMode::LoadFile, nodes.clone(), vec![], 2).unwrap();
    assert_eq!(by_file, vec![vec!["a.py::t1", "a.py::t2", "c.py::t5"], vec!["b.py::t3", "b.py::t4"]]);
    assert!(plan_batches(DistributionMode::Load, nodes.clone(), vec![], 0).is_err());

    let mut grouped = vec![
        item("a.py::t1", false, false),
        item("a.py::t2", false, false),
        item("b.py::t3", false, false),
    ];
    grouped[0].xdist_group = Some("g".to_string());
    grouped[2].xdist_group = Some("g".to_string());
    let by_group = plan_batches(DistributionMode::LoadGroup, vec![], grouped, 2).unwrap();
    assert_eq!(by_group, vec![vec!["a.py::t2"], vec!["a.py::t1", "b.py::t3"]]);

    let mut pool = WorkerPool::new();
    let with_gap = vec![strings(&["a.py::t1"]), vec![], strings(&["b.py::t3", "b.py::t4"])];
    spawn_batches(&mut pool, "python3", &strings(&["-m", "pytest"]), &with_gap, "/repo");
    assert_eq!(pool.worker_count(), 2);
    assert_eq!(pool.commands()[0].worker_id, 0);
    assert_eq!(pool.commands()[1].worker_id, 2);
    assert_eq!(
        pool.commands()[1].args,
        vec!["-m", "pytest", "--rootdir", "/repo", "b.py::t3", "b.py::t4"]
    );
    assert_eq!(pool.commands()[1].working_dir, Some("/repo".to_string()));
    assert_eq!(pool.commands()[0].program, "python3");
}

#[test]
fn test_configuration_text() {
    let text = "# settings\n[pytest]\ntestpaths = tests  integration\npython_files = check_*.py\n    *_spec.py\n  ; a comment between\n\tmore_*.py\nunknown_key = 1 2 3\n   not_a_continuation\nnorecursedirs=build   .tox\npython_classes = Old*\npython_classes = Check*\n addopts = -q\n";
    assert_eq!(declared_values(text, "testpaths"), vec!["tests", "integration"]);
    assert_eq!(declared_values(text, "python_files"), vec!["check_*.py", "*_spec.py", "more_*.py"]);
    // an indented line continues the declaration before it, whatever it holds
    assert_eq!(declared_values(text, "unknown_key"), vec!["1", "2", "3", "not_a_continuation"]);
    assert_eq!(declared_values(text, "norecursedirs"), vec!["build", ".tox"]);
    assert_eq!(declared_values(text, "python_classes"), vec!["Check*", "addopts", "=", "-q"]);
    assert!(declared_values(text, "python_functions").is_empty());
    assert!(declared_values("", "testpaths").is_empty());
    assert!(declared_values("testpaths", "testpaths").is_empty());
    assert!(declared_values("testpaths =", "testpaths").is_empty());
    assert_eq!(declared_values("a = b = c", "a"), vec!["b", "=", "c"]);

    let config = CollectionConfig::from_text(text);
    assert_eq!(config.testpaths, vec!["tests", "integration"]);
    assert_eq!(config.python_files, vec!["check_*.py", "*_spec.py", "more_*.py"]);
    assert_eq!(config.python_functions, vec!["test*"]);
    assert_eq!(config.norecursedirs, vec!["build", ".tox"]);
    assert!(config.ignore_patterns.is_empty());
    let defaults = CollectionConfig::from_text("[pytest]\n");
    assert_eq!(defaults.python_files, vec!["test_*.py", "*_test.py"]);
    assert_eq!(defaults.python_classes, vec!["Test*"]);
    assert_eq!(defaults.norecursedirs.len(), 9);
    assert!(defaults.duplicate().testpaths.is_empty());
}

#[test]
fn test_uncertain_files_are_written_one_per_line() {
    assert_eq!(render_uncertain_files(&vec![]), "");
    assert_eq!(render_uncertain_files(&strings(&["a.py"])), "a.py\n");
    assert_eq!(render_uncertain_files(&strings(&["a.py", "sub/b.py"])), "a.py\nsub/b.py\n");
}

#[test]
fn test_root_paths_that_fail_do_not_end_the_pass() {
    let session = Session::new("/root".to_string());
    let results = vec![
        PathResult { path: "/root/a".into(), result: Ok(vec![directory("a"), module("a/test_x.py")]) },
        PathResult { path: "/root/gone".into(), result: Err(CollectionError::IoError("gone".into())) },
        PathResult { path: "/root/b.py".into(), result: Ok(vec![module("b.py")]) },
        PathResult { path: "/root/c".into(), result: Ok(vec![]) },
        PathResult { path: "/root/bad".into(), result: Err(CollectionError::SkipError("s".into())) },
    ];
    let (collectors, errors) = session.perform_collect(results);
    let ids: Vec<&str> = collectors.iter().map(|c| c.nodeid()).collect();
    assert_eq!(ids, vec!["a", "a/test_x.py", "b.py"]);
    assert_eq!(errors.len(), 2);
    assert_eq!(errors[0].0, "/root/gone");
    assert!(matches!(errors[1].1, CollectionError::SkipError(_)));
    let (none, no_errors) = session.perform_collect(vec![]);
    assert!(none.is_empty() && no_errors.is_empty());
}

#[test]
fn test_failed_module_is_uncertain_whatever_its_name() {
    let trees = vec![
        passed(module("checks/check_ok.pyw"), vec![leaf("checks/check_ok.pyw::test_fine")]),
        Collected::Failed {
            node: module("checks/check_broken.pyw"),
            error: CollectionError::ParseError("Failed to parse checks/check_broken.pyw: bad".into()),
        },
        Collected::Failed {
            node: module("a_test.py"),
            error: CollectionError::IoError("input/output error".into()),
        },
        Collected::Failed {
            node: directory("checks/locked"),
            error: CollectionError::IoError("input/output error".into()),
        },
    ];
    let (nodes, errors) = collect_tests_rust(&trees);
    assert_eq!(nodes, vec!["checks/check_ok.pyw::test_fine"]);
    assert_eq!(
        errors.errors.iter().map(|(nodeid, _)| nodeid.as_str()).collect::<Vec<_>>(),
        vec!["checks/check_broken.pyw", "a_test.py", "checks/locked"]
    );
    // every failed module is listed, sorted; the directory is no file
    assert_eq!(errors.uncertain_files, vec!["a_test.py", "checks/check_broken.pyw"]);
}
