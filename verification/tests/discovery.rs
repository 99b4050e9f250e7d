use rtest::collection::error::CollectionError;
use rtest::python_discovery::ast::{Alias, ClassDef, Expr, FunctionDef, Keyword, Module, Stmt};
use rtest::python_discovery::cases::{
    extract_literal, parse_decorators_for_cases, parse_single_decorator, CannotExpandReason,
    CasesExpansion, DecoratorParseResult, LiteralValue,
};
use rtest::python_discovery::discovery::{TestDiscoveryConfig, TestInfo};
use rtest::python_discovery::semantic_analyzer::{Discovery, SemanticTestDiscovery};
use rtest::python_discovery::{discover_tests, discover_tests_with_inheritance};
use rtest::text::line_of_offset;
use ruff_python_ast as py;

fn text_of_float(value: f64) -> String {
    if value.fract() == 0.0 {
        format!("{:.0}", value)
    } else {
        value.to_string()
    }
}

fn expr(e: &py::Expr) -> Expr {
    match e {
        py::Expr::Name(n) => Expr::Name(n.id.as_str().to_string()),
        py::Expr::Attribute(a) => {
            Expr::Attribute { value: Box::new(expr(&a.value)), attr: a.attr.as_str().to_string() }
        }
        py::Expr::Call(c) => Expr::Call {
            func: Box::new(expr(&c.func)),
            args: c.arguments.args.iter().map(expr).collect(),
            keywords: c
                .arguments
                .keywords
                .iter()
                .map(|k| Keyword {
                    arg: k.arg.as_ref().map(|a| a.as_str().to_string()),
                    value: expr(&k.value),
                })
                .collect(),
        },
        py::Expr::StringLiteral(s) => Expr::StringLiteral(s.value.to_str().to_string()),
        py::Expr::NumberLiteral(n) => match &n.value {
            py::Number::Int(i) => Expr::IntLiteral(i.to_string()),
            py::Number::Float(f) => Expr::FloatLiteral(text_of_float(*f)),
            py::Number::Complex { .. } => Expr::ComplexLiteral,
        },
        py::Expr::BooleanLiteral(b) => Expr::BooleanLiteral(b.value),
        py::Expr::NoneLiteral(_) => Expr::NoneLiteral,
        py::Expr::UnaryOp(u) => match u.op {
            py::UnaryOp::USub => Expr::Negative(Box::new(expr(&u.operand))),
            _ => Expr::Other("unary operation".to_string()),
        },
        py::Expr::List(l) => Expr::List(l.elts.iter().map(expr).collect()),
        py::Expr::Tuple(t) => Expr::Tuple(t.elts.iter().map(expr).collect()),
        py::Expr::ListComp(_)
        | py::Expr::SetComp(_)
        | py::Expr::DictComp(_)
        | py::Expr::Generator(_) => Expr::Comprehension,
        _ => Expr::Other("expression".to_string()),
    }
}

fn function(f: &py::StmtFunctionDef, source: &str) -> FunctionDef {
    FunctionDef {
        name: f.name.as_str().to_string(),
        line: line_of_offset(source.as_bytes(), f.range.start().to_usize()),
        decorators: f.decorator_list.iter().map(|d| expr(&d.expression)).collect(),
    }
}

fn alias(a: &py::Alias) -> Alias {
    Alias {
        name: a.name.as_str().to_string(),
        asname: a.asname.as_ref().map(|n| n.as_str().to_string()),
    }
}

fn statement(s: &py::Stmt, source: &str) -> Stmt {
    match s {
        py::Stmt::FunctionDef(f) => Stmt::FunctionDef(function(f, source)),
        py::Stmt::ClassDef(c) => Stmt::ClassDef(ClassDef {
            name: c.name.as_str().to_string(),
            line: line_of_offset(source.as_bytes(), c.range.start().to_usize()),
            decorators: c.decorator_list.iter().map(|d| expr(&d.expression)).collect(),
            bases: match &c.arguments {
                Some(arguments) => arguments.args.iter().map(expr).collect(),
                None => Vec::new(),
            },
            body: c
                .body
                .iter()
                .filter_map(|s| match s {
                    py::Stmt::FunctionDef(f) => Some(function(f, source)),
                    _ => None,
                })
                .collect(),
        }),
        py::Stmt::Import(i) => Stmt::Import(i.names.iter().map(alias).collect()),
        py::Stmt::ImportFrom(i) => Stmt::ImportFrom {
            module: i.module.as_ref().map(|m| m.as_str().to_string()),
            names: i.names.iter().map(alias).collect(),
            level: i.level as usize,
        },
        _ => Stmt::Other,
    }
}

fn parse(source: &str) -> Result<Module, String> {
    match ruff_python_parser::parse_module(source) {
        Ok(parsed) => Ok(Module {
            body: parsed.syntax().body.iter().map(|s| statement(s, source)).collect(),
        }),
        Err(e) => Err(e.to_string()),
    }
}

fn discover(source: &str) -> Vec<TestInfo> {
    discover_tests("test.py", &parse(source), &TestDiscoveryConfig::default()).unwrap()
}

fn names(tests: &[TestInfo]) -> Vec<&str> {
    tests.iter().map(|t| t.name.as_str()).collect()
}

fn qualified(tests: &[TestInfo]) -> Vec<String> {
    tests
        .iter()
        .map(|t| match &t.class_name {
            Some(class) => format!("{}::{}", class, t.name),
            None => t.name.clone(),
        })
        .collect()
}

/// Runs discovery with inheritance over files held in memory.
fn discover_in(files: &[(&str, &str)], path: &str) -> Result<(Vec<TestInfo>, Vec<String>), CollectionError> {
    let source = files.iter().find(|(name, _)| *name == path).unwrap().1;
    let module = parse(source).unwrap();
    let mut discovery = SemanticTestDiscovery::new(TestDiscoveryConfig::default());
    for _ in 0..50 {
        match discover_tests_with_inheritance(path, &module, "", &mut discovery)? {
            Discovery::Done { tests, warnings } => {
                return Ok((tests, warnings.iter().map(|w| w.to_string()).collect()));
            }
            Discovery::NeedModule(parts) => {
                let as_file = format!("{}.py", parts.join("/"));
                let as_package = format!("{}/__init__.py", parts.join("/"));
                let found =
                    files.iter().find(|(name, _)| *name == as_file || *name == as_package);
                match found {
                    None => discovery.mark_unavailable(&parts),
                    Some((_, text)) => match parse(text) {
                        Ok(loaded) => {
                            let _ = discovery.load_module(&parts, &loaded);
                        }
                        Err(reason) => discovery.mark_failed(&parts, &reason),
                    },
                }
            }
        }
    }
    panic!("discovery did not come to an end");
}

#[test]
fn test_discover_tests() {
    let tests = discover(
        "def test_simple():\n    pass\n\ndef not_a_test():\n    pass\n\nclass TestClass:\n    def test_method(self):\n        pass\n\n    def not_a_test_method(self):\n        pass\n\nclass NotATestClass:\n    def test_ignored(self):\n        pass\n",
    );

    assert_eq!(tests.len(), 2);

    assert_eq!(tests[0].name, "test_simple");
    assert!(!tests[0].is_method);
    assert_eq!(tests[0].class_name, None);

    assert_eq!(tests[1].name, "test_method");
    assert!(tests[1].is_method);
    assert_eq!(tests[1].class_name, Some("TestClass".into()));
    assert!(!tests[1].is_parametrized);
    assert!(!tests[1].has_uncertain_params);
}

#[test]
fn test_skip_classes_with_init() {
    let tests = discover(
        "\nclass TestWithInit:\n    def __init__(self):\n        pass\n\n    def test_should_be_skipped(self):\n        pass\n\nclass TestWithoutInit:\n    def test_should_be_collected(self):\n        pass\n",
    );

    assert_eq!(tests.len(), 1);
    assert_eq!(tests[0].name, "test_should_be_collected");
    assert_eq!(tests[0].class_name, Some("TestWithoutInit".into()));
}

#[test]
fn test_camel_case_functions() {
    let tests = discover(
        "\ndef test_snake_case():\n    pass\n\ndef testCamelCase():\n    pass\n\ndef testThisIsAlsoATest():\n    pass\n\nclass TestClass:\n    def test_method_snake_case(self):\n        pass\n\n    def testMethodCamelCase(self):\n        pass\n\ndef not_a_test():\n    pass\n",
    );

    assert_eq!(tests.len(), 5);

    let test_names = names(&tests);
    assert!(test_names.contains(&"test_snake_case"));
    assert!(test_names.contains(&"testCamelCase"));
    assert!(test_names.contains(&"testThisIsAlsoATest"));
    assert!(test_names.contains(&"test_method_snake_case"));
    assert!(test_names.contains(&"testMethodCamelCase"));
}

#[test]
fn test_class_inheritance_same_module() {
    let tests = discover(
        "\nclass TestBase:\n    def test_base_method(self):\n        pass\n\n    def test_another_base_method(self):\n        pass\n\nclass TestDerived(TestBase):\n    def test_derived_method(self):\n        pass\n\nclass TestMultiLevel(TestDerived):\n    def test_multi_level_method(self):\n        pass\n",
    );

    assert_eq!(tests.len(), 7);

    let base_tests: Vec<&TestInfo> =
        tests.iter().filter(|t| t.class_name.as_ref().map_or(false, |c| c == "TestBase")).collect();
    assert_eq!(base_tests.len(), 2);

    let derived_tests: Vec<&TestInfo> = tests
        .iter()
        .filter(|t| t.class_name.as_ref().map_or(false, |c| c == "TestDerived"))
        .collect();
    assert_eq!(derived_tests.len(), 3);

    let derived_method_names: Vec<&str> = derived_tests.iter().map(|t| t.name.as_str()).collect();
    assert!(derived_method_names.contains(&"test_base_method"));
    assert!(derived_method_names.contains(&"test_another_base_method"));
    assert!(derived_method_names.contains(&"test_derived_method"));

    let multi_tests: Vec<&TestInfo> = tests
        .iter()
        .filter(|t| t.class_name.as_ref().map_or(false, |c| c == "TestMultiLevel"))
        .collect();
    assert_eq!(multi_tests.len(), 2);

    let multi_method_names: Vec<&str> = multi_tests.iter().map(|t| t.name.as_str()).collect();
    assert!(multi_method_names.contains(&"test_derived_method"));
    assert!(multi_method_names.contains(&"test_multi_level_method"));
}

#[test]
fn test_inheritance_with_init_skipped() {
    let tests = discover(
        "\nclass TestBaseWithInit:\n    def __init__(self):\n        pass\n\n    def test_should_not_be_collected(self):\n        pass\n\nclass TestDerivedFromInitClass(TestBaseWithInit):\n    def test_derived_method(self):\n        pass\n",
    );

    assert_eq!(tests.len(), 0);
}

#[test]
fn test_cross_module_inheritance() {
    let parent_module = "\nclass TestBase:\n    def test_base_method(self):\n        pass\n\n    def test_another_base_method(self):\n        pass\n";
    let child_module = "\nfrom tests.test_base import TestBase\n\nclass TestDerived(TestBase):\n    def test_derived_method(self):\n        pass\n";
    let files = [("tests/test_base.py", parent_module), ("tests/test_child.py", child_module)];

    let (tests, _warnings) = discover_in(&files, "tests/test_child.py").unwrap();

    // the imported test class is collected under its own name, then the
    // derived class with what it inherits and what it defines
    assert_eq!(
        qualified(&tests),
        vec![
            "TestBase::test_base_method",
            "TestBase::test_another_base_method",
            "TestDerived::test_base_method",
            "TestDerived::test_another_base_method",
            "TestDerived::test_derived_method",
        ]
    );

    let derived: Vec<&TestInfo> =
        tests.iter().filter(|t| t.class_name.as_deref() == Some("TestDerived")).collect();
    assert_eq!(derived.len(), 3);
    let method_names: Vec<&str> = derived.iter().map(|t| t.name.as_str()).collect();
    assert!(method_names.contains(&"test_base_method"));
    assert!(method_names.contains(&"test_another_base_method"));
    assert!(method_names.contains(&"test_derived_method"));
}

#[test]
fn test_parametrize_basic_types() {
    let tests = discover(
        "import pytest\n\n@pytest.mark.parametrize(\"value\", [1, 2, 3])\ndef test_with_ints(value):\n    pass\n\n@pytest.mark.parametrize(\"name\", [\"alice\", \"bob\", \"charlie\"])\ndef test_with_strings(name):\n    pass\n\n@pytest.mark.parametrize(\"flag\", [True, False])\ndef test_with_bools(flag):\n    pass\n\n@pytest.mark.parametrize(\"value\", [None, \"something\"])\ndef test_with_none(value):\n    pass\n",
    );

    assert_eq!(tests.len(), 10);
    assert_eq!(
        names(&tests),
        vec![
            "test_with_ints[1]",
            "test_with_ints[2]",
            "test_with_ints[3]",
            "test_with_strings[alice]",
            "test_with_strings[bob]",
            "test_with_strings[charlie]",
            "test_with_bools[True]",
            "test_with_bools[False]",
            "test_with_none[None]",
            "test_with_none[something]",
        ]
    );
    assert!(tests.iter().all(|t| t.is_parametrized && !t.has_uncertain_params));
}

#[test]
fn test_parametrize_function_calls() {
    let tests = discover(
        "import pytest\nfrom decimal import Decimal\n\n@pytest.mark.parametrize(\"a,b,expected\", [\n    (Decimal(20), Decimal(20), True),\n    (Decimal(20), Decimal(40), False),\n    (Decimal(40), Decimal(20), False),\n])\ndef test_with_decimal(a, b, expected):\n    pass\n",
    );

    assert_eq!(tests.len(), 3);

    assert!(tests.iter().any(|t| t.name == "test_with_decimal[a0-b0-True]"));
    assert!(tests.iter().any(|t| t.name == "test_with_decimal[a1-b1-False]"));
    assert!(tests.iter().any(|t| t.name == "test_with_decimal[a2-b2-False]"));

    assert!(!tests.iter().any(|t| t.name.contains("Call(ExprCall")));
    assert!(!tests.iter().any(|t| t.name.contains("Decimal(")));
    assert!(tests.iter().all(|t| t.has_uncertain_params));
}

#[test]
fn test_parametrize_multiple_params() {
    let tests = discover(
        "import pytest\n\n@pytest.mark.parametrize(\"x,y,expected\", [\n    (1, 2, 3),\n    (10, 20, 30),\n    (-5, 5, 0),\n])\ndef test_addition(x, y, expected):\n    pass\n",
    );

    assert_eq!(tests.len(), 3);

    assert!(tests.iter().any(|t| t.name == "test_addition[1-2-3]"));
    assert!(tests.iter().any(|t| t.name == "test_addition[10-20-30]"));
    assert!(tests.iter().any(|t| t.name == "test_addition[-5-5-0]"));
}

#[test]
fn test_parametrize_stacked_decorators() {
    let tests = discover(
        "import pytest\n\n@pytest.mark.parametrize(\"x\", [1, 2])\n@pytest.mark.parametrize(\"y\", [10, 20])\ndef test_stacked(x, y):\n    pass\n",
    );

    assert_eq!(tests.len(), 4);

    assert!(tests.iter().any(|t| t.name == "test_stacked[10-1]"));
    assert!(tests.iter().any(|t| t.name == "test_stacked[10-2]"));
    assert!(tests.iter().any(|t| t.name == "test_stacked[20-1]"));
    assert!(tests.iter().any(|t| t.name == "test_stacked[20-2]"));
    // the innermost decorator gives the leftmost segment and varies slowest
    assert_eq!(
        names(&tests),
        vec!["test_stacked[10-1]", "test_stacked[10-2]", "test_stacked[20-1]", "test_stacked[20-2]"]
    );
}

#[test]
fn test_parametrize_on_class_methods() {
    let tests = discover(
        "import pytest\n\nclass TestMath:\n    @pytest.mark.parametrize(\"value\", [1, 2, 3])\n    def test_positive(self, value):\n        pass\n\n    @pytest.mark.parametrize(\"value\", [-1, -2, -3])\n    def test_negative(self, value):\n        pass\n",
    );

    assert_eq!(tests.len(), 6);

    let positive_tests: Vec<&TestInfo> =
        tests.iter().filter(|t| t.name.starts_with("test_positive")).collect();
    assert_eq!(positive_tests.len(), 3);
    assert!(positive_tests.iter().all(|t| t.class_name.as_ref() == Some(&"TestMath".to_string())));

    let negative_tests: Vec<&TestInfo> =
        tests.iter().filter(|t| t.name.starts_with("test_negative")).collect();
    assert_eq!(negative_tests.len(), 3);
    assert!(negative_tests.iter().any(|t| t.name == "test_negative[-1]"));
    assert!(negative_tests.iter().any(|t| t.name == "test_negative[-2]"));
    assert!(negative_tests.iter().any(|t| t.name == "test_negative[-3]"));
}

#[test]
fn test_parametrize_with_complex_types() {
    let tests = discover(
        "import pytest\n\n@pytest.mark.parametrize(\"data\", [\n    [1, 2, 3],\n    (4, 5, 6),\n])\ndef test_with_collections(data):\n    pass\n",
    );

    assert_eq!(tests.len(), 2);

    assert!(tests.iter().any(|t| t.name == "test_with_collections[data0]"));
    assert!(tests.iter().any(|t| t.name == "test_with_collections[data1]"));
}

#[test]
fn test_parametrize_mixed_with_regular_tests() {
    let tests = discover(
        "import pytest\n\ndef test_regular():\n    pass\n\n@pytest.mark.parametrize(\"value\", [1, 2])\ndef test_parametrized(value):\n    pass\n\nclass TestClass:\n    def test_regular_method(self):\n        pass\n\n    @pytest.mark.parametrize(\"value\", [10, 20])\n    def test_parametrized_method(self, value):\n        pass\n",
    );

    assert_eq!(tests.len(), 6);

    assert!(tests.iter().any(|t| t.name == "test_regular"));
    assert!(tests.iter().any(|t| t.name == "test_parametrized[1]"));
    assert!(tests.iter().any(|t| t.name == "test_parametrized[2]"));
    assert!(tests.iter().any(|t| t.name == "test_regular_method"));
    assert!(tests.iter().any(|t| t.name == "test_parametrized_method[10]"));
    assert!(tests.iter().any(|t| t.name == "test_parametrized_method[20]"));
}

#[test]
fn test_parametrize_inherited_methods() {
    let tests = discover(
        "import pytest\n\nclass TestBase:\n    @pytest.mark.parametrize(\"value\", [1, 2])\n    def test_base_parametrized(self, value):\n        pass\n\nclass TestDerived(TestBase):\n    @pytest.mark.parametrize(\"value\", [10, 20])\n    def test_derived_parametrized(self, value):\n        pass\n",
    );

    assert_eq!(tests.len(), 6);

    let base_tests: Vec<&TestInfo> =
        tests.iter().filter(|t| t.class_name.as_ref() == Some(&"TestBase".to_string())).collect();
    assert_eq!(base_tests.len(), 2);

    let derived_tests: Vec<&TestInfo> = tests
        .iter()
        .filter(|t| t.class_name.as_ref() == Some(&"TestDerived".to_string()))
        .collect();
    assert_eq!(derived_tests.len(), 4);

    assert!(derived_tests.iter().any(|t| t.name == "test_base_parametrized[1]"));
    assert!(derived_tests.iter().any(|t| t.name == "test_base_parametrized[2]"));
    assert!(derived_tests.iter().any(|t| t.name == "test_derived_parametrized[10]"));
    assert!(derived_tests.iter().any(|t| t.name == "test_derived_parametrized[20]"));
}

#[test]
fn test_all_import_patterns() {
    let source = r#"
# Pattern 1: Simple import
import pytest

# Pattern 2: From import
from pytest import mark

# Pattern 3: Aliased import
import pytest as pt

# Pattern 4: From import with alias
from pytest import mark as m

# Pattern 5: Multiple from imports
from pytest import mark, fixture

# Pattern 6: Nested import
from pytest.mark import parametrize

# Test basic pytest.mark.xdist_group
@pytest.mark.xdist_group("group1")
def test_basic_import():
    pass

# Test from import mark
@mark.xdist_group("group2")
def test_from_import():
    pass

# Test aliased pytest
@pt.mark.xdist_group("group3")
def test_aliased_import():
    pass

# Test aliased mark
@m.xdist_group("group4")
def test_aliased_mark():
    pass

# Test direct parametrize import
@parametrize("value", [1, 2, 3])
def test_direct_parametrize():
    pass

# Test multiple decorators
@pytest.mark.skip
@pytest.mark.xdist_group(name="group5")
def test_multiple_decorators():
    pass

# Test class with xdist_group
@pytest.mark.xdist_group("class_group")
class TestClass:
    def test_method(self):
        pass

    @pytest.mark.xdist_group("method_group")
    def test_method_with_own_group(self):
        pass
"#;

    let tests = discover(source);

    // the call of the imported marker is expanded into its three rows
    assert_eq!(tests.len(), 10);

    let test_basic = tests.iter().find(|t| t.name == "test_basic_import").unwrap();
    assert_eq!(test_basic.xdist_group, Some("group1".to_string()));

    let test_from = tests.iter().find(|t| t.name == "test_from_import").unwrap();
    assert_eq!(test_from.xdist_group, Some("group2".to_string()));

    let test_aliased = tests.iter().find(|t| t.name == "test_aliased_import").unwrap();
    assert_eq!(test_aliased.xdist_group, Some("group3".to_string()));

    let test_aliased_mark = tests.iter().find(|t| t.name == "test_aliased_mark").unwrap();
    assert_eq!(test_aliased_mark.xdist_group, Some("group4".to_string()));

    let direct: Vec<&TestInfo> =
        tests.iter().filter(|t| t.name.starts_with("test_direct_parametrize")).collect();
    assert_eq!(
        direct.iter().map(|t| t.name.as_str()).collect::<Vec<_>>(),
        vec!["test_direct_parametrize[1]", "test_direct_parametrize[2]", "test_direct_parametrize[3]"]
    );
    assert!(direct.iter().all(|t| t.xdist_group.is_none()));
    assert!(direct.iter().all(|t| t.is_parametrized && !t.has_uncertain_params));

    let test_multiple = tests.iter().find(|t| t.name == "test_multiple_decorators").unwrap();
    assert_eq!(test_multiple.xdist_group, Some("group5".to_string()));

    let test_method = tests.iter().find(|t| t.name == "test_method").unwrap();
    assert_eq!(test_method.xdist_group, None);

    let test_method_group = tests.iter().find(|t| t.name == "test_method_with_own_group").unwrap();
    assert_eq!(test_method_group.xdist_group, Some("method_group".to_string()));
}

#[test]
fn test_collection_error_context() {
    let content = "def test_bad(\n    pass";
    let result =
        discover_tests("/tmp/bad_syntax.py", &parse(content), &TestDiscoveryConfig::default());

    assert!(result.is_err());
    match result {
        Err(CollectionError::ParseError(msg)) => {
            assert!(msg.contains("bad_syntax.py"));
            assert!(msg.contains("parse"));
            assert!(msg.starts_with("Failed to parse /tmp/bad_syntax.py: "));
        }
        _ => panic!("Expected ParseError"),
    }
}

#[test]
fn test_enum_attribute_access_is_uncertain() {
    let tests = discover(
        "import pytest\n\n@pytest.mark.parametrize(\"v\", [E.A, E.B, pkg.mod.E.C])\ndef test(v): ...\n",
    );
    assert_eq!(names(&tests), vec!["test[E.A]", "test[E.B]", "test[pkg.mod.E.C]"]);
    assert!(tests.iter().all(|t| t.is_parametrized && t.has_uncertain_params));
}

#[test]
fn test_unreadable_arguments_give_one_uncertain_item() {
    for decorator in [
        "@pytest.mark.parametrize(\"v\", VALUES)",
        "@pytest.mark.parametrize(\"v\", make_values())",
        "@pytest.mark.parametrize(\"v\", [x for x in range(3)])",
        "@pytest.mark.parametrize(NAMES, [1, 2])",
        "@pytest.mark.parametrize(\"v\")",
        "@parametrize(\"v\", [1, 2])",
    ] {
        let tests = discover(&format!("import pytest\n\n{}\ndef test_it(v): ...\n", decorator));
        assert_eq!(names(&tests), vec!["test_it"], "{}", decorator);
        assert!(tests[0].is_parametrized, "{}", decorator);
        assert!(tests[0].has_uncertain_params, "{}", decorator);
    }
    // a bare call is read where an import binds the name to the marker,
    // under whatever local name
    let tests = discover(
        "from pytest.mark import parametrize as cases\n\n@cases(\"v\", [1, 2])\ndef test_it(v): ...\n",
    );
    assert_eq!(names(&tests), vec!["test_it[1]", "test_it[2]"]);
    assert!(tests.iter().all(|t| t.is_parametrized && !t.has_uncertain_params));
    // an alias of the marker namespace is read like the namespace
    let tests = discover(
        "from pytest import mark as m\n\n@m.parametrize(\"v\", [1, 2])\ndef test_it(v): ...\n",
    );
    assert_eq!(names(&tests), vec!["test_it[1]", "test_it[2]"]);
    // one decorator can be read, the other cannot: the rows are expanded
    // and every item is uncertain
    let tests = discover(
        "import pytest\n\n@pytest.mark.parametrize(\"a\", VALUES)\n@pytest.mark.parametrize(\"b\", [1, 2])\ndef test_it(a, b): ...\n",
    );
    assert_eq!(names(&tests), vec!["test_it[1]", "test_it[2]"]);
    assert!(tests.iter().all(|t| t.is_parametrized && t.has_uncertain_params));
}

#[test]
fn test_identifiers_of_values() {
    let tests = discover(
        "import pytest\n\n@pytest.mark.parametrize(\"v\", [1.5, 2.0, -3, -1.5, \"a b\", \"tab\\there\", \"caf\\u00e9\", name, 1j, {1: 2}, not x, None, (1, 2)])\ndef test_v(v): ...\n",
    );
    assert_eq!(
        names(&tests),
        vec![
            "test_v[1.5]",
            "test_v[2]",
            "test_v[-3]",
            "test_v[v3]",
            "test_v[a b]",
            "test_v[v5]",
            "test_v[v6]",
            "test_v[name]",
            "test_v[v8]",
            "test_v[v9]",
            "test_v[v10]",
            "test_v[None]",
            "test_v[v12]",
        ]
    );
    assert!(tests.iter().all(|t| t.has_uncertain_params));
}

#[test]
fn test_explicit_ids_and_duplicates() {
    let tests = discover(
        "import pytest\n\n@pytest.mark.parametrize(\"v\", [1, 2, 3], ids=[\"one\", \"two\"])\ndef test_ids(v): ...\n\n@pytest.mark.parametrize(\"v\", [1, 1, 2, 1])\ndef test_dup(v): ...\n\n@pytest.mark.parametrize(\"v\", [1, 2], ids=make_ids())\ndef test_other(v): ...\n\n@pytest.mark.parametrize((\"a\", \"b\"), [(1, 2), [3, 4], 5])\ndef test_names(a, b): ...\n\n@pytest.mark.parametrize(\" a , b \", [(1, 2)])\ndef test_spaces(a, b): ...\n",
    );
    assert_eq!(
        names(&tests),
        vec![
            "test_ids[one]",
            "test_ids[two]",
            "test_ids[3]",
            "test_dup[1]",
            "test_dup[1_1]",
            "test_dup[2]",
            "test_dup[1_2]",
            "test_other[1]",
            "test_other[2]",
            "test_names[1-2]",
            "test_names[3-4]",
            "test_names[5]",
            "test_spaces[1-2]",
        ]
    );
}

#[test]
fn test_class_level_parametrize() {
    let tests = discover(
        "import pytest as pt\n\n@pt.mark.parametrize(\"c\", [\"x\", \"y\"])\nclass TestC:\n    def test_plain(self, c): ...\n\n    @pt.mark.parametrize(\"m\", [1, 2])\n    def test_both(self, c, m): ...\n",
    );
    assert_eq!(
        qualified(&tests),
        vec![
            "TestC::test_plain[x]",
            "TestC::test_plain[y]",
            "TestC::test_both[x-1]",
            "TestC::test_both[x-2]",
            "TestC::test_both[y-1]",
            "TestC::test_both[y-2]",
        ]
    );
    assert!(tests.iter().all(|t| t.is_parametrized && t.is_method));
}

#[test]
fn test_inheritance_across_modules_in_collection_order() {
    let a = "class TestBase:\n    def test_m(self): ...\n";
    let b = "from a import TestBase\n\nclass TestChild(TestBase):\n    def test_n(self): ...\n";
    let files = [("a.py", a), ("b.py", b)];
    let (in_a, _) = discover_in(&files, "a.py").unwrap();
    assert_eq!(qualified(&in_a), vec!["TestBase::test_m"]);
    let (in_b, warnings) = discover_in(&files, "b.py").unwrap();
    assert_eq!(
        qualified(&in_b),
        vec!["TestBase::test_m", "TestChild::test_m", "TestChild::test_n"]
    );
    assert!(warnings.is_empty());
}

#[test]
fn test_override_removes_inherited_entries() {
    let base = "import pytest\n\nclass TestBase:\n    @pytest.mark.parametrize(\"v\", [1, 2])\n    def test_a(self, v): ...\n\n    def test_b(self): ...\n\n    def test_c(self): ...\n";
    let child = "from base import TestBase as Base\nimport pytest\n\nclass TestMid(Base):\n    def test_b(self): ...\n\nclass TestChild(TestMid):\n    @pytest.mark.parametrize(\"w\", [7])\n    def test_a(self, w): ...\n\n    def helper(self): ...\n";
    let files = [("base.py", base), ("child.py", child)];
    let (tests, _) = discover_in(&files, "child.py").unwrap();
    assert_eq!(
        qualified(&tests),
        vec![
            "TestBase::test_a[1]",
            "TestBase::test_a[2]",
            "TestBase::test_b",
            "TestBase::test_c",
            "TestMid::test_a[1]",
            "TestMid::test_a[2]",
            "TestMid::test_c",
            "TestMid::test_b",
            "TestChild::test_c",
            "TestChild::test_b",
            "TestChild::test_a[7]",
        ]
    );
}

#[test]
fn test_diamonds_cycles_and_initializers() {
    let source = "import unittest\nfrom typing import Generic\nfrom missing.module import TestGone\n\nclass TestTop:\n    def test_top(self): ...\n\nclass TestLeft(TestTop):\n    def test_left(self): ...\n\nclass TestRight(TestTop):\n    def test_right(self): ...\n\nclass TestBottom(TestLeft, TestRight, Generic[T], unittest.TestCase, TestGone):\n    def test_bottom(self): ...\n\nclass TestA(TestB):\n    def test_a(self): ...\n\nclass TestB(TestA):\n    def test_b(self): ...\n\nclass TestInit:\n    def __init__(self): ...\n    def test_never(self): ...\n\nclass TestHeir(TestInit):\n    def test_heir(self): ...\n";
    let files = [("test_shapes.py", source)];
    let (tests, warnings) = discover_in(&files, "test_shapes.py").unwrap();
    assert_eq!(
        qualified(&tests),
        vec![
            "TestTop::test_top",
            "TestLeft::test_top",
            "TestLeft::test_left",
            "TestRight::test_top",
            "TestRight::test_right",
            "TestBottom::test_top",
            "TestBottom::test_left",
            "TestBottom::test_top",
            "TestBottom::test_right",
            "TestBottom::test_bottom",
            "TestA::test_b",
            "TestA::test_a",
            "TestB::test_a",
            "TestB::test_b",
        ]
    );
    assert_eq!(warnings.len(), 2);
    assert!(warnings[0].contains("cannot collect test class 'TestInit' because it has a __init__ constructor"));
    assert!(warnings[1].contains("cannot collect test class 'TestHeir' because it has a __init__ constructor"));
    // each warning points at the line on which its class starts
    assert!(warnings[0].starts_with("test_shapes.py:23: "));
    assert!(warnings[1].starts_with("test_shapes.py:27: "));
}

#[test]
fn test_relative_imports_and_failures() {
    let base = "class TestBase:\n    def test_base(self): ...\n";
    let child = "from .base import TestBase\nimport pkg.base\nimport pkg.base as other\n\nclass TestChild(TestBase):\n    def test_child(self): ...\n\nclass TestOther(other.TestBase):\n    def test_other(self): ...\n";
    let files = [("pkg/base.py", base), ("pkg/test_child.py", child), ("pkg/__init__.py", "")];
    let (tests, _) = discover_in(&files, "pkg/test_child.py").unwrap();
    assert_eq!(
        qualified(&tests),
        vec![
            "TestBase::test_base",
            "TestChild::test_base",
            "TestChild::test_child",
            "TestOther::test_base",
            "TestOther::test_other",
        ]
    );

    let beyond = "from ...far import TestFar\n\nclass TestChild(TestFar):\n    def test_child(self): ...\n";
    let result = discover_in(&[("pkg/test_x.py", beyond)], "pkg/test_x.py");
    match result {
        Err(CollectionError::ImportError(message)) => {
            assert_eq!(message, "Cannot resolve import 'far' from pkg.test_x");
        }
        _ => panic!("expected an import error"),
    }

    let broken = "class Broken(:\n";
    let user = "from broken import TestBroken\n\nclass TestUser(TestBroken):\n    def test_user(self): ...\n";
    let result = discover_in(&[("broken.py", broken), ("test_user.py", user)], "test_user.py");
    assert!(matches!(result, Err(CollectionError::ImportError(_))));
}

#[test]
fn test_identifiers_that_cannot_stand_in_a_node_identifier() {
    for values in ["[\"a::b\", \"c\"]", "[\"x[1]\"]", "[1, 2], ids=[\"ok\", \"not::ok\"]", "[A.B, \"[\"]"] {
        let tests = discover(&format!(
            "import pytest\n\n@pytest.mark.parametrize(\"v\", {})\ndef test_it(v): ...\n",
            values
        ));
        assert_eq!(names(&tests), vec!["test_it"], "{}", values);
        assert!(tests[0].is_parametrized && tests[0].has_uncertain_params, "{}", values);
    }
    let tests = discover(
        "import pytest\n\n@pytest.mark.parametrize(\"v\", [\"a:b\", \"c]\"])\ndef test_it(v): ...\n",
    );
    assert_eq!(names(&tests), vec!["test_it[a:b]", "test_it[c]]"]);
}

#[test]
fn test_override_in_the_same_module() {
    let tests = discover(
        "import pytest\n\nclass TestBase:\n    def test_a(self): ...\n\n    @pytest.mark.parametrize(\"v\", [1, 2])\n    def test_b(self, v): ...\n\n    def test_c(self): ...\n\nclass TestChild(TestBase):\n    def test_b(self): ...\n\n    def test_c(self): ...\n\n    def helper(self): ...\n",
    );
    assert_eq!(
        qualified(&tests),
        vec![
            "TestBase::test_a",
            "TestBase::test_b[1]",
            "TestBase::test_b[2]",
            "TestBase::test_c",
            "TestChild::test_a",
            "TestChild::test_b",
            "TestChild::test_c",
        ]
    );
}

fn decorators_of(source: &str) -> Vec<Expr> {
    let module = parse(source).unwrap();
    for stmt in module.body {
        if let Stmt::FunctionDef(f) = stmt {
            return f.decorators;
        }
    }
    panic!("no function in the source");
}

fn cases_of(decorators: &str) -> CasesExpansion {
    parse_decorators_for_cases(&decorators_of(&format!("{}\ndef test_it(): ...\n", decorators)))
}

fn expanded(decorators: &str) -> Vec<String> {
    match cases_of(decorators) {
        CasesExpansion::Expanded(cases) => cases.into_iter().map(|c| c.case_id).collect(),
        other => panic!("not expanded: {:?}", other),
    }
}

fn reason(decorators: &str) -> String {
    match cases_of(decorators) {
        CasesExpansion::CannotExpand(reason) => reason.to_string(),
        other => panic!("expanded after all: {:?}", other),
    }
}

#[test]
fn test_cases_are_read_off_decorators() {
    assert!(matches!(cases_of("@other.decorator(1)"), CasesExpansion::NotDecorated));
    assert!(matches!(cases_of("@pytest.mark.skip"), CasesExpansion::NotDecorated));
    assert!(matches!(cases_of("@pytest.mark.cases(\"x\", [1])"), CasesExpansion::NotDecorated));
    assert!(matches!(cases_of("@rtest.mark.parametrize(\"x\", [1])"), CasesExpansion::NotDecorated));
    assert_eq!(expanded("@rtest.mark.cases(\"x\", [1, 2, 3])"), vec!["1", "2", "3"]);
    assert_eq!(
        expanded("@pytest.mark.parametrize(\"x, y\", [(1, \"a\"), (2.5, None), [True, False]])"),
        vec!["1-a", "2.5-None", "True-False"]
    );
    assert_eq!(
        expanded("@rtest.mark.cases(\"x\", [1, 2])\n@rtest.mark.cases(\"y\", (\"a\", \"b\"))"),
        vec!["1-a", "1-b", "2-a", "2-b"]
    );
    assert_eq!(
        expanded("@rtest.mark.cases(\"x\", [1, 2, 3], ids=[\"one\", 2])"),
        vec!["one", "2", "2_1"]
    );
    assert_eq!(
        expanded("@rtest.mark.cases(\"x\", [1, 2], ids=names)"),
        vec!["1", "2"]
    );
    assert_eq!(
        expanded("@rtest.mark.cases(\"x\", [99999999999999999999, 9223372036854775807])"),
        vec!["99999999999999999999", "9223372036854775807"]
    );
    assert_eq!(reason("@rtest.mark.cases(\"x\", DATA)"), "argvalues references variable 'DATA'");
    assert_eq!(
        reason("@rtest.mark.cases(\"x\", make())"),
        "argvalues contains function call 'make'"
    );
    assert_eq!(
        reason("@rtest.mark.cases(\"x\", [a.b.make()])"),
        "argvalues contains function call 'make'"
    );
    assert_eq!(
        reason("@rtest.mark.cases(\"x\", [i for i in range(3)])"),
        "argvalues contains a comprehension"
    );
    assert_eq!(
        reason("@rtest.mark.cases(\"x\", [1, -2])"),
        "argvalues contains unsupported expression: unary operation"
    );
    assert_eq!(
        reason("@rtest.mark.cases(\"x\", [1j])"),
        "argvalues contains unsupported expression: complex numbers"
    );
    assert_eq!(
        reason("@rtest.mark.cases(\"x\", {1: 2})"),
        "argvalues contains unsupported expression: argvalues must be a list or tuple"
    );
    assert_eq!(
        reason("@rtest.mark.cases(\"x\")"),
        "argvalues contains unsupported expression: missing required arguments"
    );
    assert_eq!(
        reason("@rtest.mark.cases(\" , \", [1])"),
        "argvalues contains unsupported expression: empty argnames"
    );
    assert_eq!(reason("@rtest.mark.cases(NAMES, [1])"), "argvalues references variable 'NAMES'");
    assert_eq!(
        reason("@rtest.mark.cases([\"x\"], [1])"),
        "argvalues contains unsupported expression: argnames must be a string"
    );
    // the first decorator that cannot be read decides
    assert_eq!(
        reason("@rtest.mark.cases(\"x\", [1])\n@rtest.mark.cases(\"y\", DATA)\n@rtest.mark.cases(\"z\", other())"),
        "argvalues references variable 'DATA'"
    );

    let decorators = decorators_of("@rtest.mark.cases(\"a,b\", [(1, (2, \"x\"))], ids=(\"k\",))\ndef f(): ...\n");
    match parse_single_decorator(&decorators[0]) {
        DecoratorParseResult::CasesSpec(spec) => {
            assert_eq!(spec.argnames, vec!["a", "b"]);
            assert_eq!(spec.ids, Some(vec!["k".to_string()]));
            assert_eq!(spec.argvalues.len(), 1);
            assert!(matches!(&spec.argvalues[0], LiteralValue::Sequence(v) if v.len() == 2));
        }
        other => panic!("no cases: {:?}", other),
    }
    assert!(matches!(
        extract_literal(&Expr::Attribute { value: Box::new(Expr::Name("E".into())), attr: "A".into() }),
        Err(CannotExpandReason::UnsupportedExpression(kind)) if kind == "attribute access"
    ));
    assert!(matches!(extract_literal(&Expr::IntLiteral("12".into())), Ok(LiteralValue::Int(12))));
}

#[test]
fn test_line_of_offset_counts_from_one() {
    let source = "a\nbc\n\nd";
    assert_eq!(line_of_offset(source.as_bytes(), 0), 1);
    assert_eq!(line_of_offset(source.as_bytes(), 1), 1);
    assert_eq!(line_of_offset(source.as_bytes(), 2), 2);
    assert_eq!(line_of_offset(source.as_bytes(), 4), 2);
    assert_eq!(line_of_offset(source.as_bytes(), 5), 3);
    assert_eq!(line_of_offset(source.as_bytes(), 6), 4);
    assert_eq!(line_of_offset(source.as_bytes(), 7), 4);
    assert_eq!(line_of_offset(source.as_bytes(), 1000), 4);
    assert_eq!(line_of_offset("".as_bytes(), 0), 1);
    assert_eq!(line_of_offset("\n".as_bytes(), 1), 2);
    // a line feed is never part of a longer character
    let accented = "caf\u{e9}\nx";
    assert_eq!(line_of_offset(accented.as_bytes(), 4), 1);
    assert_eq!(line_of_offset(accented.as_bytes(), 6), 2);
    // the items of a module carry the lines of their definitions
    let tests = discover("import pytest\n\n\ndef test_a(): ...\n\nclass TestB:\n    def test_c(self): ...\n");
    assert_eq!(tests.iter().map(|t| t.line).collect::<Vec<_>>(), vec![4, 7]);
}
