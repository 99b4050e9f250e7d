//! What discovery finds: the test items of one function, with their
//! parametrize rows expanded and their uncertainty flagged.

use crate::pattern::{any_glob_matches, matches_any};
use crate::python_discovery::ast::{Expr, FunctionDef, Keyword};
use crate::python_discovery::ids::{combinations, generate_param_combinations, info_ids, row_ids};
use crate::python_discovery::import_tracker::{ImportLog, ImportTracker};
use crate::python_discovery::parametrize::{
    any_uncertain_value, expansion, has_uncertain_param_values, has_uncertain_value, infos_view,
    is_any_parametrize_call,
    is_mark_expr, is_parametrize, is_pytest_mark_expr, parse_parametrize_decorator, ParametrizeInfo,
    ParametrizeView,
};
use crate::text::{
    contains, contains_text, copy_option, copy_strings, find_char, opt_text, str_eq, texts,
    to_chars,
};
use vstd::prelude::*;
use vstd::string::StringExecFns;

verus! {

/// One discovered test item.
#[derive(Debug, Clone)]
pub struct TestInfo {
    /// The function's name, with the row's identifier in brackets where the
    /// item is one row of a parametrized function.
    pub name: String,
    /// Where the function starts.
    pub line: usize,
    /// Whether the function is defined in a class.
    pub is_method: bool,
    /// The class under which the item is collected.
    pub class_name: Option<String>,
    /// Whether a parametrize decorator applies to the function.
    pub is_parametrized: bool,
    /// Whether the item's identifier may differ from the one the host gives.
    pub has_uncertain_params: bool,
    /// The group tag given by a group marker, if any.
    pub xdist_group: Option<String>,
}

/// A test item in the language of contracts.
pub struct TestInfoView {
    pub name: Seq<char>,
    pub line: usize,
    pub is_method: bool,
    pub class_name: Option<Seq<char>>,
    pub is_parametrized: bool,
    pub has_uncertain_params: bool,
    pub xdist_group: Option<Seq<char>>,
}

impl View for TestInfo {
    type V = TestInfoView;

    open spec fn view(&self) -> TestInfoView {
        TestInfoView {
            name: self.name@,
            line: self.line,
            is_method: self.is_method,
            class_name: opt_text(self.class_name),
            is_parametrized: self.is_parametrized,
            has_uncertain_params: self.has_uncertain_params,
            xdist_group: opt_text(self.xdist_group),
        }
    }
}

/// The items of a list in the language of contracts.
pub open spec fn tests_view(tests: Seq<TestInfo>) -> Seq<TestInfoView> {
    tests.map_values(|t: TestInfo| t@)
}

/// The name patterns that make a class a test class and a function a test
/// function.
#[derive(Debug, Clone)]
pub struct TestDiscoveryConfig {
    pub python_classes: Vec<String>,
    pub python_functions: Vec<String>,
}

impl Default for TestDiscoveryConfig {
    /// Classes named `Test*` and functions named `test*`.
    fn default() -> (config: TestDiscoveryConfig)
        ensures
            texts(config.python_classes@) == seq!["Test*"@],
            texts(config.python_functions@) == seq!["test*"@],
    {
        let mut python_classes: Vec<String> = Vec::new();
        python_classes.push(String::from_str("Test*"));
        let mut python_functions: Vec<String> = Vec::new();
        python_functions.push(String::from_str("test*"));
        assert(texts(python_classes@) =~= seq!["Test*"@]);
        assert(texts(python_functions@) =~= seq!["test*"@]);
        TestDiscoveryConfig { python_classes, python_functions }
    }
}

impl TestDiscoveryConfig {
    /// Whether a function of this name is a test function.
    pub open spec fn accepts_function(self, name: Seq<char>) -> bool {
        any_glob_matches(texts(self.python_functions@), name)
    }

    /// Whether a class of this name is a test class, its initializer aside.
    pub open spec fn accepts_class(self, name: Seq<char>) -> bool {
        any_glob_matches(texts(self.python_classes@), name)
    }

    /// Whether a function of this name is a test function.
    pub fn is_test_function(&self, name: &str) -> (r: bool)
        ensures
            r == self.accepts_function(name@),
    {
        matches_any(&self.python_functions, name)
    }

    /// Whether a class of this name is a test class, its initializer aside.
    pub fn is_test_class(&self, name: &str) -> (r: bool)
        ensures
            r == self.accepts_class(name@),
    {
        matches_any(&self.python_classes, name)
    }

    /// A copy with the same patterns.
    pub fn duplicate(&self) -> (r: TestDiscoveryConfig)
        ensures
            texts(r.python_classes@) == texts(self.python_classes@),
            texts(r.python_functions@) == texts(self.python_functions@),
    {
        TestDiscoveryConfig {
            python_classes: copy_strings(&self.python_classes),
            python_functions: copy_strings(&self.python_functions),
        }
    }
}

/// Whether an identifier can stand in a node identifier: it holds neither
/// an opening bracket nor the separator of node identifiers.
pub open spec fn is_clean_id(id: Seq<char>) -> bool {
    !id.contains('[') && !contains_text(id, seq![':', ':'])
}

/// Whether the first `n` identifiers can stand in node identifiers.
pub open spec fn all_clean(ids: Seq<Seq<char>>, n: int) -> bool {
    forall|i: int| 0 <= i < n ==> is_clean_id(#[trigger] ids[i])
}

/// What a decorator says, where it can be read and every identifier that it
/// gives can stand in a node identifier. A decorator that would give any
/// other identifier counts as one that cannot be read.
pub open spec fn usable(imports: ImportLog, decorator: Expr) -> Option<ParametrizeView> {
    match expansion(imports, decorator) {
        Some(info) => if all_clean(info_ids(info), info_ids(info).len() as int) {
            Some(info)
        } else {
            None
        },
        None => None,
    }
}

/// Whether the identifier can stand in a node identifier.
pub fn is_clean(id: &str) -> (r: bool)
    ensures
        r == is_clean_id(id@),
{
    let chars = to_chars(id);
    let open: usize = find_char(&chars, '[', 0);
    if open < chars.len() {
        assert(chars@[open as int] == '[');
        return false;
    }
    assert forall|k: int| 0 <= k < id@.len() implies id@[k] != '[' by {}
    let mut sep: Vec<char> = Vec::new();
    sep.push(':');
    sep.push(':');
    assert(sep@ =~= seq![':', ':']);
    !contains(&chars, &sep)
}

/// What a decorator says, where it can be read and gives identifiers that
/// can stand in node identifiers.
pub fn parse_usable_decorator(tracker: &ImportTracker, decorator: &Expr) -> (r: Option<
    ParametrizeInfo,
>)
    ensures
        match r {
            Some(info) => usable(tracker.log(), *decorator) == Some(info@),
            None => usable(tracker.log(), *decorator) is None,
        },
{
    let info = match parse_parametrize_decorator(tracker, decorator) {
        Some(info) => info,
        None => {
            return None;
        },
    };
    let ids = row_ids(&info);
    let mut i: usize = 0;
    while i < ids.len()
        invariant
            i <= ids.len(),
            texts(ids@) == info_ids(info@),
            expansion(tracker.log(), *decorator) == Some(info@),
            all_clean(texts(ids@), i as int),
        decreases ids.len() - i,
    {
        assert(texts(ids@)[i as int] == ids@[i as int]@);
        if !is_clean(ids[i].as_str()) {
            return None;
        }
        i += 1;
    }
    Some(info)
}

/// What the first `n` decorators say, for those that can be read.
pub open spec fn expansions_upto(imports: ImportLog, decorators: Seq<Expr>, n: int) -> Seq<
    ParametrizeView,
>
    decreases n,
{
    if n <= 0 {
        Seq::empty()
    } else {
        let before = expansions_upto(imports, decorators, n - 1);
        match usable(imports, decorators[n - 1]) {
            Some(info) => before.push(info),
            None => before,
        }
    }
}

/// What the decorators say, for those that can be read, outermost first.
pub open spec fn expansions(imports: ImportLog, decorators: Seq<Expr>) -> Seq<ParametrizeView> {
    expansions_upto(imports, decorators, decorators.len() as int)
}

/// Whether one of the first `n` decorators is a parametrize decorator.
pub open spec fn marked_upto(imports: ImportLog, decorators: Seq<Expr>, n: int) -> bool {
    exists|i: int| 0 <= i < n && is_parametrize(imports, #[trigger] decorators[i])
}

/// Whether one of the decorators is a parametrize decorator.
pub open spec fn is_marked(imports: ImportLog, decorators: Seq<Expr>) -> bool {
    marked_upto(imports, decorators, decorators.len() as int)
}

/// Whether one of the first `n` decorators is a parametrize decorator
/// whose arguments cannot be read.
pub open spec fn unreadable_upto(imports: ImportLog, decorators: Seq<Expr>, n: int) -> bool {
    exists|i: int|
        0 <= i < n && is_parametrize(imports, #[trigger] decorators[i]) && usable(
            imports,
            decorators[i],
        ) is None
}

/// Whether one of the decorators is a parametrize decorator whose
/// arguments cannot be read.
pub open spec fn has_unreadable(imports: ImportLog, decorators: Seq<Expr>) -> bool {
    unreadable_upto(imports, decorators, decorators.len() as int)
}

/// The value of the first `name=` keyword at or after `from` that holds a
/// string literal.
pub open spec fn name_keyword(keywords: Seq<Keyword>, from: int) -> Option<Seq<char>>
    decreases keywords.len() - from,
{
    if from < 0 || from >= keywords.len() {
        None
    } else if (keywords[from].arg matches Some(arg) && arg@ == "name"@)
        && keywords[from].value is StringLiteral {
        Some(keywords[from].value->StringLiteral_0@)
    } else {
        name_keyword(keywords, from + 1)
    }
}

/// The group that a decorator names, where it is a group marker: the value
/// of `name=`, or else the first argument, where that is a string literal.
pub open spec fn decorator_group(imports: ImportLog, decorator: Expr) -> Option<Seq<char>> {
    match decorator {
        Expr::Call { func, args, keywords } => match *func {
            Expr::Attribute { value, attr } => if attr@ == "xdist_group"@ && is_mark_expr(
                imports,
                *value,
            ) {
                match name_keyword(keywords@, 0) {
                    Some(group) => Some(group),
                    None => if args@.len() > 0 && args@[0] is StringLiteral {
                        Some(args@[0]->StringLiteral_0@)
                    } else {
                        None
                    },
                }
            } else {
                None
            },
            _ => None,
        },
        _ => None,
    }
}

/// The group that the first group marker at or after `from` names.
pub open spec fn group_tag(imports: ImportLog, decorators: Seq<Expr>, from: int) -> Option<
    Seq<char>,
>
    decreases decorators.len() - from,
{
    if from < 0 || from >= decorators.len() {
        None
    } else {
        match decorator_group(imports, decorators[from]) {
            Some(group) => Some(group),
            None => group_tag(imports, decorators, from + 1),
        }
    }
}

/// The name of one row of a parametrized function: the function's name and
/// the row's identifier in brackets.
pub open spec fn row_name(name: Seq<char>, id: Seq<char>) -> Seq<char> {
    name + seq!['['] + id + seq![']']
}

/// The items that one test function gives.
///
/// `class_infos` are the readable parametrize decorators of the enclosing
/// class, `class_marked` says whether the class has a parametrize decorator
/// at all, `class_unreadable` whether it has one that cannot be read.
///
/// Without a readable decorator there is one item under the function's own
/// name; where a decorator is there but cannot be read, that item is
/// parametrized and uncertain. With readable decorators there is one item
/// for each combination of rows, uncertain where a value is or where
/// another decorator cannot be read.
pub open spec fn function_items(
    imports: ImportLog,
    func: FunctionDef,
    class_name: Option<Seq<char>>,
    class_infos: Seq<ParametrizeView>,
    class_marked: bool,
    class_unreadable: bool,
) -> Seq<TestInfoView> {
    let infos = expansions(imports, func.decorators@) + class_infos;
    let marked = is_marked(imports, func.decorators@) || class_marked;
    let unreadable = has_unreadable(imports, func.decorators@) || class_unreadable;
    let group = group_tag(imports, func.decorators@, 0);
    if infos.len() == 0 {
        seq![
            TestInfoView {
                name: func.name@,
                line: func.line,
                is_method: class_name is Some,
                class_name,
                is_parametrized: marked,
                has_uncertain_params: marked,
                xdist_group: group,
            },
        ]
    } else {
        combinations(infos).map_values(
            |id: Seq<char>|
                TestInfoView {
                    name: row_name(func.name@, id),
                    line: func.line,
                    is_method: class_name is Some,
                    class_name,
                    is_parametrized: true,
                    has_uncertain_params: any_uncertain_value(infos) || unreadable,
                    xdist_group: group,
                },
        )
    }
}

/// What the decorators say, for those that can be read, outermost first.
pub fn extract_parametrize_decorators(tracker: &ImportTracker, decorators: &Vec<Expr>) -> (infos:
    Vec<ParametrizeInfo>)
    ensures
        infos_view(infos@) == expansions(tracker.log(), decorators@),
{
    let mut infos: Vec<ParametrizeInfo> = Vec::new();
    let mut i: usize = 0;
    assert(infos_view(infos@) =~= expansions_upto(tracker.log(), decorators@, 0));
    while i < decorators.len()
        invariant
            i <= decorators.len(),
            infos_view(infos@) == expansions_upto(tracker.log(), decorators@, i as int),
        decreases decorators.len() - i,
    {
        let ghost before = infos_view(infos@);
        match parse_usable_decorator(tracker, &decorators[i]) {
            Some(info) => {
                infos.push(info);
                assert(infos_view(infos@) =~= before.push(info@));
            },
            None => {},
        }
        i += 1;
    }
    infos
}

/// Whether one of the decorators is a parametrize decorator, be its
/// arguments readable or not.
pub fn has_parametrize_decorator(tracker: &ImportTracker, decorators: &Vec<Expr>) -> (r: bool)
    ensures
        r == is_marked(tracker.log(), decorators@),
{
    let mut i: usize = 0;
    while i < decorators.len()
        invariant
            i <= decorators.len(),
            !marked_upto(tracker.log(), decorators@, i as int),
        decreases decorators.len() - i,
    {
        if is_any_parametrize_call(tracker, &decorators[i]) {
            return true;
        }
        i += 1;
    }
    false
}

/// Whether one of the decorators is a parametrize decorator whose
/// arguments cannot be read.
pub fn has_unreadable_parametrize(tracker: &ImportTracker, decorators: &Vec<Expr>) -> (r: bool)
    ensures
        r == has_unreadable(tracker.log(), decorators@),
{
    let mut i: usize = 0;
    while i < decorators.len()
        invariant
            i <= decorators.len(),
            !unreadable_upto(tracker.log(), decorators@, i as int),
        decreases decorators.len() - i,
    {
        if is_any_parametrize_call(tracker, &decorators[i]) {
            match parse_usable_decorator(tracker, &decorators[i]) {
                Some(_) => {},
                None => {
                    return true;
                },
            }
        }
        i += 1;
    }
    false
}

/// Whether `func` is the group marker reached through the marker namespace.
pub fn is_xdist_group_call(tracker: &ImportTracker, func: &Expr) -> (r: bool)
    ensures
        r == (match *func {
            Expr::Attribute { value, attr } => attr@ == "xdist_group"@ && is_mark_expr(
                tracker.log(),
                *value,
            ),
            _ => false,
        }),
{
    match func {
        Expr::Attribute { value, attr } => {
            str_eq(attr.as_str(), "xdist_group") && is_pytest_mark_expr(tracker, value)
        },
        _ => false,
    }
}

/// The value of the first `name=` keyword that holds a string literal.
fn find_name_keyword(keywords: &Vec<Keyword>) -> (r: Option<String>)
    ensures
        opt_text(r) == name_keyword(keywords@, 0),
{
    let mut i: usize = 0;
    while i < keywords.len()
        invariant
            i <= keywords.len(),
            name_keyword(keywords@, 0) == name_keyword(keywords@, i as int),
        decreases keywords.len() - i,
    {
        let named: bool = match &keywords[i].arg {
            Some(arg) => str_eq(arg.as_str(), "name"),
            None => false,
        };
        if named {
            match &keywords[i].value {
                Expr::StringLiteral(group) => {
                    assert(keywords@[i as int].value is StringLiteral);
                    return Some(group.clone());
                },
                _ => {
                    assert(!(keywords@[i as int].value is StringLiteral));
                },
            }
        }
        i += 1;
    }
    None
}

/// The group that a decorator names, where it is a group marker.
pub fn parse_xdist_group_decorator(tracker: &ImportTracker, decorator: &Expr) -> (r: Option<
    String,
>)
    ensures
        opt_text(r) == decorator_group(tracker.log(), *decorator),
{
    match decorator {
        Expr::Call { func, args, keywords } => {
            if !is_xdist_group_call(tracker, func) {
                return None;
            }
            match find_name_keyword(keywords) {
                Some(group) => {
                    return Some(group);
                },
                None => {},
            }
            if args.len() > 0 {
                match &args[0] {
                    Expr::StringLiteral(group) => {
                        return Some(group.clone());
                    },
                    _ => {},
                }
            }
            None
        },
        _ => None,
    }
}

/// The group that the first group marker among the decorators names.
pub fn extract_xdist_group_from_decorators(tracker: &ImportTracker, decorators: &Vec<Expr>) -> (r:
    Option<String>)
    ensures
        opt_text(r) == group_tag(tracker.log(), decorators@, 0),
{
    let mut i: usize = 0;
    while i < decorators.len()
        invariant
            i <= decorators.len(),
            group_tag(tracker.log(), decorators@, 0) == group_tag(
                tracker.log(),
                decorators@,
                i as int,
            ),
        decreases decorators.len() - i,
    {
        match parse_xdist_group_decorator(tracker, &decorators[i]) {
            Some(group) => {
                return Some(group);
            },
            None => {},
        }
        i += 1;
    }
    None
}

/// The list `own` followed by copies of `inherited`.
fn with_class_infos(own: Vec<ParametrizeInfo>, inherited: &Vec<ParametrizeInfo>) -> (all: Vec<
    ParametrizeInfo,
>)
    ensures
        infos_view(all@) == infos_view(own@) + infos_view(inherited@),
{
    let ghost start = infos_view(own@);
    let mut all = own;
    let mut i: usize = 0;
    assert(infos_view(all@) =~= start + infos_view(inherited@).take(0));
    while i < inherited.len()
        invariant
            i <= inherited.len(),
            infos_view(all@) == start + infos_view(inherited@).take(i as int),
        decreases inherited.len() - i,
    {
        let ghost before = infos_view(all@);
        let info = &inherited[i];
        all.push(info.duplicate());
        assert(infos_view(all@) =~= before.push(info@));
        assert(infos_view(inherited@).take(i + 1) =~= infos_view(inherited@).take(i as int).push(
            info@,
        ));
        i += 1;
    }
    assert(infos_view(inherited@).take(inherited.len() as int) =~= infos_view(inherited@));
    all
}

/// The items that one test function gives: one under its own name where no
/// parametrize decorator can be read, else one for each combination of rows.
pub fn visit_function(
    tracker: &ImportTracker,
    func: &FunctionDef,
    class_name: &Option<String>,
    class_infos: &Vec<ParametrizeInfo>,
    class_marked: bool,
    class_unreadable: bool,
) -> (tests: Vec<TestInfo>)
    ensures
        tests_view(tests@) == function_items(
            tracker.log(),
            *func,
            opt_text(*class_name),
            infos_view(class_infos@),
            class_marked,
            class_unreadable,
        ),
{
    let own = extract_parametrize_decorators(tracker, &func.decorators);
    let infos = with_class_infos(own, class_infos);
    let marked: bool = has_parametrize_decorator(tracker, &func.decorators) || class_marked;
    let unreadable: bool = has_unreadable_parametrize(tracker, &func.decorators)
        || class_unreadable;
    let group = extract_xdist_group_from_decorators(tracker, &func.decorators);
    let is_method: bool = class_name.is_some();
    let mut tests: Vec<TestInfo> = Vec::new();
    if infos.len() == 0 {
        tests.push(
            TestInfo {
                name: func.name.clone(),
                line: func.line,
                is_method,
                class_name: copy_option(class_name),
                is_parametrized: marked,
                has_uncertain_params: marked,
                xdist_group: group,
            },
        );
        assert(tests_view(tests@) =~= function_items(
            tracker.log(),
            *func,
            opt_text(*class_name),
            infos_view(class_infos@),
            class_marked,
            class_unreadable,
        ));
        return tests;
    }
    let uncertain: bool = has_uncertain_param_values(&infos) || unreadable;
    let ids = generate_param_combinations(&infos);
    let mut i: usize = 0;
    while i < ids.len()
        invariant
            i <= ids.len(),
            tests.len() == i,
            is_method == (opt_text(*class_name) is Some),
            forall|k: int|
                0 <= k < i ==> (#[trigger] tests[k])@ == (TestInfoView {
                    name: row_name(func.name@, ids[k]@),
                    line: func.line,
                    is_method,
                    class_name: opt_text(*class_name),
                    is_parametrized: true,
                    has_uncertain_params: uncertain,
                    xdist_group: opt_text(group),
                }),
        decreases ids.len() - i,
    {
        let mut name = func.name.clone();
        name.append("[");
        name.append(ids[i].as_str());
        name.append("]");
        proof {
            reveal_strlit("[");
            reveal_strlit("]");
            assert("["@ =~= seq!['[']);
            assert("]"@ =~= seq![']']);
        }
        tests.push(
            TestInfo {
                name,
                line: func.line,
                is_method,
                class_name: copy_option(class_name),
                is_parametrized: true,
                has_uncertain_params: uncertain,
                xdist_group: copy_option(&group),
            },
        );
        i += 1;
    }
    assert(tests_view(tests@) =~= function_items(
        tracker.log(),
        *func,
        opt_text(*class_name),
        infos_view(class_infos@),
        class_marked,
        class_unreadable,
    ));
    tests
}

/// Every item of a function that has a parametrize decorator is marked as
/// parametrized, and every item of a function with a parametrize decorator
/// that cannot be read, or with a value that only the running program knows,
/// is marked as uncertain.
pub proof fn law_uncertain_items(
    imports: ImportLog,
    func: FunctionDef,
    class_name: Option<Seq<char>>,
    class_infos: Seq<ParametrizeView>,
    class_marked: bool,
    class_unreadable: bool,
    d: int,
)
    requires
        0 <= d < func.decorators@.len(),
        is_parametrize(imports, func.decorators@[d]),
    ensures
        ({
            let items = function_items(
                imports,
                func,
                class_name,
                class_infos,
                class_marked,
                class_unreadable,
            );
            &&& forall|k: int| 0 <= k < items.len() ==> (#[trigger] items[k]).is_parametrized
            &&& (match usable(imports, func.decorators@[d]) {
                None => true,
                Some(info) => has_uncertain_value(info),
            }) ==> forall|k: int| 0 <= k < items.len() ==> (#[trigger] items[k]).has_uncertain_params
        }),
{
    let decorators = func.decorators@;
    let own = expansions(imports, decorators);
    let infos = own + class_infos;
    assert(marked_upto(imports, decorators, decorators.len() as int));
    match usable(imports, decorators[d]) {
        None => {
            assert(unreadable_upto(imports, decorators, decorators.len() as int));
        },
        Some(info) => {
            lemma_expansion_listed(imports, decorators, decorators.len() as int, d);
            if has_uncertain_value(info) {
                let at = choose|at: int| 0 <= at < own.len() && own[at] == info;
                assert(infos[at] == info);
                assert(any_uncertain_value(infos));
            }
        },
    }
}

/// An item that is marked as parametrized either carries its row in
/// brackets or is marked as uncertain.
pub proof fn law_parametrized_items(
    imports: ImportLog,
    func: FunctionDef,
    class_name: Option<Seq<char>>,
    class_infos: Seq<ParametrizeView>,
    class_marked: bool,
    class_unreadable: bool,
)
    ensures
        forall|k: int|
            0 <= k < function_items(
                imports,
                func,
                class_name,
                class_infos,
                class_marked,
                class_unreadable,
            ).len() ==> {
                let item = #[trigger] function_items(
                    imports,
                    func,
                    class_name,
                    class_infos,
                    class_marked,
                    class_unreadable,
                )[k];
                item.is_parametrized ==> item.name.contains('[') || item.has_uncertain_params
            },
{
    let items = function_items(imports, func, class_name, class_infos, class_marked, class_unreadable);
    let infos = expansions(imports, func.decorators@) + class_infos;
    assert forall|k: int| 0 <= k < items.len() implies ({
        let item = #[trigger] items[k];
        item.is_parametrized ==> item.name.contains('[') || item.has_uncertain_params
    }) by {
        if infos.len() > 0 {
            let id = combinations(infos)[k];
            let name = row_name(func.name@, id);
            assert(name[func.name@.len() as int] == '[');
            assert(items[k].name == name);
        }
    }
}

/// A readable decorator among the first `n` is among what they say.
pub proof fn lemma_expansion_listed(imports: ImportLog, decorators: Seq<Expr>, n: int, d: int)
    requires
        0 <= d < n <= decorators.len(),
        usable(imports, decorators[d]) is Some,
    ensures
        exists|at: int|
            0 <= at < expansions_upto(imports, decorators, n).len() && expansions_upto(
                imports,
                decorators,
                n,
            )[at] == usable(imports, decorators[d])->Some_0,
    decreases n,
{
    let now = expansions_upto(imports, decorators, n);
    if d == n - 1 {
        assert(now[now.len() - 1] == usable(imports, decorators[d])->Some_0);
    } else {
        lemma_expansion_listed(imports, decorators, n - 1, d);
        let before = expansions_upto(imports, decorators, n - 1);
        let at = choose|at: int|
            0 <= at < before.len() && before[at] == usable(imports, decorators[d])->Some_0;
        assert(now[at] == before[at]);
    }
}

} // verus!
