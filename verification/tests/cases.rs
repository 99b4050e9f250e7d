use rtest::python_discovery::cases::{
    expand_cases, expand_single_spec, format_cannot_expand_warning, literal_to_id_string,
    CannotExpandReason, CasesSpec, LiteralValue,
};
use rtest::python_discovery::ids::deduplicate_ids;

#[test]
fn test_deduplicate_ids_no_duplicates() {
    let ids = vec!["a".to_string(), "b".to_string(), "c".to_string()];
    assert_eq!(deduplicate_ids(ids), vec!["a", "b", "c"]);
}

#[test]
fn test_deduplicate_ids_with_duplicates() {
    let ids = vec!["a".to_string(), "b".to_string(), "a".to_string(), "a".to_string()];
    assert_eq!(deduplicate_ids(ids), vec!["a", "b", "a_1", "a_2"]);
}

#[test]
fn test_expand_single_spec_numeric() {
    let spec = CasesSpec {
        argnames: vec!["x".to_string()],
        argvalues: vec![LiteralValue::Int(1), LiteralValue::Int(2), LiteralValue::Int(3)],
        ids: None,
    };
    assert_eq!(expand_single_spec(&spec), vec!["1", "2", "3"]);
}

#[test]
fn test_expand_single_spec_custom_ids() {
    let spec = CasesSpec {
        argnames: vec!["x".to_string()],
        argvalues: vec![LiteralValue::Int(1), LiteralValue::Int(2), LiteralValue::Int(3)],
        ids: Some(vec!["one".to_string(), "two".to_string(), "three".to_string()]),
    };
    assert_eq!(expand_single_spec(&spec), vec!["one", "two", "three"]);
    let short = CasesSpec {
        argnames: vec!["x".to_string()],
        argvalues: vec![LiteralValue::Int(1), LiteralValue::Int(2), LiteralValue::Int(3)],
        ids: Some(vec!["one".to_string()]),
    };
    assert_eq!(expand_single_spec(&short), vec!["one", "1", "2"]);
}

#[test]
fn test_expand_cases_cartesian_product() {
    let specs = vec![
        CasesSpec {
            argnames: vec!["x".to_string()],
            argvalues: vec![LiteralValue::Int(1), LiteralValue::Int(2)],
            ids: None,
        },
        CasesSpec {
            argnames: vec!["y".to_string()],
            argvalues: vec![
                LiteralValue::String("a".to_string()),
                LiteralValue::String("b".to_string()),
            ],
            ids: None,
        },
    ];
    let cases = expand_cases(&specs);
    let ids: Vec<&str> = cases.iter().map(|c| c.case_id.as_str()).collect();
    assert_eq!(ids, vec!["1-a", "1-b", "2-a", "2-b"]);
    assert!(expand_cases(&vec![]).is_empty());
    let twice = vec![CasesSpec {
        argnames: vec!["x".to_string()],
        argvalues: vec![LiteralValue::Int(1), LiteralValue::Int(1), LiteralValue::Bool(true)],
        ids: None,
    }];
    let ids: Vec<String> = expand_cases(&twice).into_iter().map(|c| c.case_id).collect();
    assert_eq!(ids, vec!["1", "1_1", "True"]);
}

#[test]
fn test_literal_to_id_string() {
    assert_eq!(literal_to_id_string(&LiteralValue::Int(42)), "42");
    assert_eq!(literal_to_id_string(&LiteralValue::Int(-7)), "-7");
    assert_eq!(literal_to_id_string(&LiteralValue::Int(i64::MIN)), "-9223372036854775808");
    assert_eq!(literal_to_id_string(&LiteralValue::Float("3.14".to_string())), "3.14");
    assert_eq!(literal_to_id_string(&LiteralValue::String("hello".to_string())), "hello");
    assert_eq!(literal_to_id_string(&LiteralValue::Bool(true)), "True");
    assert_eq!(literal_to_id_string(&LiteralValue::Bool(false)), "False");
    assert_eq!(literal_to_id_string(&LiteralValue::NoneValue), "None");
    assert_eq!(
        literal_to_id_string(&LiteralValue::Sequence(vec![
            LiteralValue::Int(1),
            LiteralValue::String("a".to_string()),
        ])),
        "1-a"
    );
    assert_eq!(literal_to_id_string(&LiteralValue::Sequence(vec![])), "");
}

#[test]
fn test_format_cannot_expand_warning() {
    let warning = format_cannot_expand_warning(
        "test_foo.py::test_x",
        &CannotExpandReason::VariableReference("DATA".to_string()),
    );
    assert_eq!(
        warning,
        "warning: Cannot statically expand test cases for 'test_foo.py::test_x': argvalues references variable 'DATA'"
    );
    assert_eq!(
        CannotExpandReason::FunctionCall("get".into()).to_string(),
        "argvalues contains function call 'get'"
    );
    assert_eq!(CannotExpandReason::Comprehension.to_string(), "argvalues contains a comprehension");
    assert_eq!(
        CannotExpandReason::UnsupportedExpression("lambda".into()).to_string(),
        "argvalues contains unsupported expression: lambda"
    );
}

#[test]
fn test_expand_single_spec_empty_argvalues() {
    let spec = CasesSpec { argnames: vec!["x".to_string()], argvalues: vec![], ids: None };
    assert_eq!(expand_single_spec(&spec), Vec::<String>::new());
}
