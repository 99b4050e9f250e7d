//! Test cases written as literal values: which decorators declare them,
//! which values can be read off the syntax tree, which identifier each case
//! gets, and why a decorator cannot be expanded without running code.

use crate::cli::{parse_count, written_count};
use crate::python_discovery::ast::{Expr, Keyword};
use crate::python_discovery::ids::{deduplicate_ids, unique_ids};
use crate::python_discovery::parametrize::{split_names, split_param_names};
use crate::text::{
    decimal, decimal_string, join, join_strings, opt_text, push_signed_decimal, signed_decimal,
    str_eq, texts,
};
use vstd::prelude::*;
use vstd::string::StringExecFns;

verus! {

/// A value that can be read off the syntax tree.
#[derive(Debug)]
pub enum LiteralValue {
    Int(i64),
    /// A float, by its shortest exact form.
    Float(String),
    String(String),
    Bool(bool),
    /// The value `None`.
    NoneValue,
    /// A tuple or list of values.
    Sequence(Vec<LiteralValue>),
}

/// A literal value in the language of contracts.
pub enum LiteralView {
    Int(i64),
    Float(Seq<char>),
    Text(Seq<char>),
    Bool(bool),
    NoneValue,
    Sequence(Seq<LiteralView>),
}

/// The value in the language of contracts.
pub open spec fn literal_view(value: LiteralValue) -> LiteralView
    decreases value, 0int,
{
    match value {
        LiteralValue::Int(i) => LiteralView::Int(i),
        LiteralValue::Float(text) => LiteralView::Float(text@),
        LiteralValue::String(text) => LiteralView::Text(text@),
        LiteralValue::Bool(b) => LiteralView::Bool(b),
        LiteralValue::NoneValue => LiteralView::NoneValue,
        LiteralValue::Sequence(values) => LiteralView::Sequence(
            literal_views(values@, values@.len() as int),
        ),
    }
}

/// The first `n` values in the language of contracts.
pub open spec fn literal_views(values: Seq<LiteralValue>, n: int) -> Seq<LiteralView>
    decreases values, n,
{
    if n <= 0 || n > values.len() {
        Seq::empty()
    } else {
        literal_views(values, n - 1).push(literal_view(values[n - 1]))
    }
}

/// One decorator that declares cases.
#[derive(Debug)]
pub struct CasesSpec {
    /// The argument names.
    pub argnames: Vec<String>,
    /// One value for each case.
    pub argvalues: Vec<LiteralValue>,
    /// Identifiers for the cases, if given.
    pub ids: Option<Vec<String>>,
}

/// A decorator that declares cases, in the language of contracts.
pub struct CasesView {
    pub argnames: Seq<Seq<char>>,
    pub argvalues: Seq<LiteralView>,
    pub ids: Option<Seq<Seq<char>>>,
}

impl View for CasesSpec {
    type V = CasesView;

    open spec fn view(&self) -> CasesView {
        CasesView {
            argnames: texts(self.argnames@),
            argvalues: literal_views(self.argvalues@, self.argvalues@.len() as int),
            ids: match self.ids {
                Some(ids) => Some(texts(ids@)),
                None => None,
            },
        }
    }
}

/// The decorators of a list in the language of contracts.
pub open spec fn specs_view(specs: Seq<CasesSpec>) -> Seq<CasesView> {
    specs.map_values(|s: CasesSpec| s@)
}

/// Why cases cannot be expanded without running code.
#[derive(Debug, Clone)]
pub enum CannotExpandReason {
    /// The values are the value of a variable.
    VariableReference(String),
    /// The values are the result of a call.
    FunctionCall(String),
    /// The values are made by a comprehension.
    Comprehension,
    /// The values are some other expression.
    UnsupportedExpression(String),
}

/// A reason in the language of contracts.
pub enum ReasonView {
    VariableReference(Seq<char>),
    FunctionCall(Seq<char>),
    Comprehension,
    UnsupportedExpression(Seq<char>),
}

impl View for CannotExpandReason {
    type V = ReasonView;

    open spec fn view(&self) -> ReasonView {
        match self {
            CannotExpandReason::VariableReference(name) => ReasonView::VariableReference(name@),
            CannotExpandReason::FunctionCall(name) => ReasonView::FunctionCall(name@),
            CannotExpandReason::Comprehension => ReasonView::Comprehension,
            CannotExpandReason::UnsupportedExpression(what) => ReasonView::UnsupportedExpression(
                what@,
            ),
        }
    }
}

/// One expanded case.
#[derive(Debug, Clone)]
pub struct ExpandedCase {
    /// The suffix that identifies the case.
    pub case_id: String,
}

/// What the decorators of a function say of its cases.
#[derive(Debug, Clone)]
pub enum CasesExpansion {
    /// No decorator declares cases.
    NotDecorated,
    /// The cases, in item order.
    Expanded(Vec<ExpandedCase>),
    /// A decorator declares cases that cannot be read.
    CannotExpand(CannotExpandReason),
}

/// What one decorator says of cases.
#[derive(Debug)]
pub enum DecoratorParseResult {
    /// The decorator declares these cases.
    CasesSpec(CasesSpec),
    /// The decorator declares cases that cannot be read.
    CannotExpand(CannotExpandReason),
    /// The decorator declares no cases.
    NotCasesDecorator,
}

/// What one decorator says of cases, in the language of contracts.
pub enum ParsedView {
    Cases(CasesView),
    CannotExpand(ReasonView),
    NotCases,
}

impl CannotExpandReason {
    /// The reason in words.
    pub open spec fn message(self) -> Seq<char> {
        match self {
            CannotExpandReason::VariableReference(name) => "argvalues references variable '"@
                + name@ + "'"@,
            CannotExpandReason::FunctionCall(name) => "argvalues contains function call '"@
                + name@ + "'"@,
            CannotExpandReason::Comprehension => "argvalues contains a comprehension"@,
            CannotExpandReason::UnsupportedExpression(what) =>
                "argvalues contains unsupported expression: "@ + what@,
        }
    }

    /// Renders the reason.
    pub fn to_string(&self) -> (s: String)
        ensures
            s@ == self.message(),
    {
        match self {
            CannotExpandReason::VariableReference(name) => {
                let mut s = String::from_str("argvalues references variable '");
                s.append(name.as_str());
                s.append("'");
                s
            },
            CannotExpandReason::FunctionCall(name) => {
                let mut s = String::from_str("argvalues contains function call '");
                s.append(name.as_str());
                s.append("'");
                s
            },
            CannotExpandReason::Comprehension => String::from_str(
                "argvalues contains a comprehension",
            ),
            CannotExpandReason::UnsupportedExpression(what) => {
                let mut s = String::from_str("argvalues contains unsupported expression: ");
                s.append(what.as_str());
                s
            },
        }
    }
}

/// The warning for a test whose cases cannot be expanded.
pub fn format_cannot_expand_warning(nodeid: &str, reason: &CannotExpandReason) -> (warning: String)
    ensures
        warning@ == "warning: Cannot statically expand test cases for '"@ + nodeid@ + "': "@
            + reason.message(),
{
    let mut warning = String::from_str("warning: Cannot statically expand test cases for '");
    warning.append(nodeid);
    warning.append("': ");
    warning.append(reason.to_string().as_str());
    warning
}

/// The identifier that a value gives: its lexical form, and for a sequence
/// the identifiers of its values joined by hyphens.
pub open spec fn view_id(value: LiteralView) -> Seq<char>
    decreases value, 0int,
{
    match value {
        LiteralView::Int(i) => signed_decimal(i as int),
        LiteralView::Float(text) => text,
        LiteralView::Text(text) => text,
        LiteralView::Bool(b) => if b {
            "True"@
        } else {
            "False"@
        },
        LiteralView::NoneValue => "None"@,
        LiteralView::Sequence(values) => join(view_ids(values, values.len() as int), "-"@),
    }
}

/// The identifiers of the first `n` values.
pub open spec fn view_ids(values: Seq<LiteralView>, n: int) -> Seq<Seq<char>>
    decreases values, n,
{
    if n <= 0 || n > values.len() {
        Seq::empty()
    } else {
        view_ids(values, n - 1).push(view_id(values[n - 1]))
    }
}

/// The identifier that a value gives.
pub open spec fn literal_id(value: LiteralValue) -> Seq<char> {
    view_id(literal_view(value))
}

/// The views of the first `n` values have the identifiers of the values.
pub proof fn lemma_view_ids(values: Seq<LiteralValue>, n: int)
    requires
        0 <= n <= values.len(),
    ensures
        literal_views(values, n).len() == n,
        forall|i: int| 0 <= i < n ==> (#[trigger] literal_views(values, n)[i]) == literal_view(values[i]),
    decreases n,
{
    if n > 0 {
        lemma_view_ids(values, n - 1);
    }
}

/// The identifier that a value gives.
pub fn literal_to_id_string(value: &LiteralValue) -> (id: String)
    ensures
        id@ == literal_id(*value),
    decreases value,
{
    match value {
        LiteralValue::Int(i) => {
            let mut id = String::new();
            push_signed_decimal(&mut id, *i);
            assert(id@ =~= signed_decimal(*i as int));
            id
        },
        LiteralValue::Float(text) => text.clone(),
        LiteralValue::String(text) => text.clone(),
        LiteralValue::Bool(b) => if *b {
            String::from_str("True")
        } else {
            String::from_str("False")
        },
        LiteralValue::NoneValue => String::from_str("None"),
        LiteralValue::Sequence(values) => {
            let ghost views = literal_views(values@, values@.len() as int);
            let mut parts: Vec<String> = Vec::new();
            let mut i: usize = 0;
            assert(texts(parts@) =~= view_ids(views, 0));
            proof {
                lemma_view_ids(values@, values@.len() as int);
            }
            while i < values.len()
                invariant
                    i <= values.len(),
                    decreases_to!(value => values),
                    views == literal_views(values@, values@.len() as int),
                    views.len() == values@.len(),
                    forall|k: int| 0 <= k < values@.len() ==> (#[trigger] views[k]) == literal_view(values@[k]),
                    texts(parts@) == view_ids(views, i as int),
                decreases values.len() - i,
            {
                assert(decreases_to!(values => values[i as int]));
                let ghost before = texts(parts@);
                let part = literal_to_id_string(&values[i]);
                assert(views[i as int] == literal_view(values@[i as int]));
                parts.push(part);
                assert(texts(parts@) =~= before.push(part@));
                i += 1;
            }
            join_strings(&parts, "-")
        },
    }
}

/// The identifiers of the cases of one decorator, before duplicates are
/// told apart: the identifier given for a case where there is one, the
/// number of the case where the given identifiers do not reach that far,
/// else the identifier that the value gives.
pub open spec fn spec_ids(spec: CasesView) -> Seq<Seq<char>> {
    Seq::new(
        spec.argvalues.len(),
        |i: int|
            match spec.ids {
                Some(ids) => if i < ids.len() {
                    ids[i]
                } else {
                    decimal(i as nat)
                },
                None => view_id(spec.argvalues[i]),
            },
    )
}

/// The identifiers of the cases of one decorator.
pub fn expand_single_spec(spec: &CasesSpec) -> (ids: Vec<String>)
    ensures
        texts(ids@) == spec_ids(spec@),
{
    let mut out: Vec<String> = Vec::new();
    let mut i: usize = 0;
    proof {
        lemma_view_ids(spec.argvalues@, spec.argvalues@.len() as int);
    }
    while i < spec.argvalues.len()
        invariant
            i <= spec.argvalues.len(),
            out.len() == i,
            spec@.argvalues.len() == spec.argvalues@.len(),
            forall|k: int|
                0 <= k < spec.argvalues@.len() ==> (#[trigger] spec@.argvalues[k]) == literal_view(
                    spec.argvalues@[k],
                ),
            forall|k: int| 0 <= k < i ==> (#[trigger] out[k])@ == spec_ids(spec@)[k],
        decreases spec.argvalues.len() - i,
    {
        assert(spec@.argvalues[i as int] == literal_view(spec.argvalues@[i as int]));
        let id: String = match &spec.ids {
            Some(ids) => {
                if i < ids.len() {
                    assert(texts(ids@)[i as int] == ids@[i as int]@);
                    ids[i].clone()
                } else {
                    decimal_string(i as u64)
                }
            },
            None => literal_to_id_string(&spec.argvalues[i]),
        };
        out.push(id);
        i += 1;
    }
    assert(texts(out@) =~= spec_ids(spec@));
    out
}

/// `left` followed by a hyphen and each identifier of `right`; `right` as
/// it is where `left` is the start of all combinations.
pub open spec fn extended(left: Seq<char>, right: Seq<Seq<char>>, first: bool) -> Seq<Seq<char>> {
    Seq::new(
        right.len(),
        |c: int|
            if first {
                right[c]
            } else {
                left + "-"@ + right[c]
            },
    )
}

/// The combinations of the first `n` of `left` with all of `right`, `left`
/// varying slowest.
pub open spec fn extended_upto(left: Seq<Seq<char>>, right: Seq<Seq<char>>, n: int, first: bool) -> Seq<
    Seq<char>,
>
    decreases n,
{
    if n <= 0 {
        Seq::empty()
    } else {
        extended_upto(left, right, n - 1, first) + extended(left[n - 1], right, first)
    }
}

/// The combined identifiers of the first `n` decorators: the first
/// decorator gives the leftmost segment and varies slowest.
pub open spec fn combined_ids(specs: Seq<CasesView>, n: int) -> Seq<Seq<char>>
    decreases n,
{
    if n <= 0 {
        seq![Seq::<char>::empty()]
    } else {
        let before = combined_ids(specs, n - 1);
        extended_upto(before, spec_ids(specs[n - 1]), before.len() as int, n == 1)
    }
}

/// The identifiers of the expanded cases: the combinations over all
/// decorators, duplicates told apart. Without decorators there are none.
pub open spec fn expanded_ids(specs: Seq<CasesView>) -> Seq<Seq<char>> {
    if specs.len() == 0 {
        Seq::empty()
    } else {
        unique_ids(combined_ids(specs, specs.len() as int))
    }
}

/// The identifiers of the cases.
pub open spec fn case_ids(cases: Seq<ExpandedCase>) -> Seq<Seq<char>> {
    cases.map_values(|c: ExpandedCase| c.case_id@)
}

/// The cases that the decorators declare: the Cartesian product of the
/// cases of each, with equal identifiers told apart.
pub fn expand_cases(specs: &Vec<CasesSpec>) -> (cases: Vec<ExpandedCase>)
    ensures
        case_ids(cases@) == expanded_ids(specs_view(specs@)),
{
    let ghost views = specs_view(specs@);
    let mut cases: Vec<ExpandedCase> = Vec::new();
    if specs.len() == 0 {
        assert(case_ids(cases@) =~= Seq::<Seq<char>>::empty());
        return cases;
    }
    let mut ids: Vec<String> = Vec::new();
    ids.push(String::new());
    assert(texts(ids@) =~= combined_ids(views, 0));
    let mut n: usize = 0;
    while n < specs.len()
        invariant
            n <= specs.len(),
            views == specs_view(specs@),
            texts(ids@) == combined_ids(views, n as int),
        decreases specs.len() - n,
    {
        assert(views[n as int] == specs@[n as int]@);
        let right = expand_single_spec(&specs[n]);
        let first: bool = n == 0;
        let ghost left_texts = texts(ids@);
        let ghost right_texts = texts(right@);
        let mut next: Vec<String> = Vec::new();
        let mut a: usize = 0;
        assert(texts(next@) =~= extended_upto(left_texts, right_texts, 0, first));
        while a < ids.len()
            invariant
                a <= ids.len(),
                left_texts == texts(ids@),
                right_texts == texts(right@),
                texts(next@) == extended_upto(left_texts, right_texts, a as int, first),
            decreases ids.len() - a,
        {
            let ghost done = texts(next@);
            let mut c: usize = 0;
            assert(texts(next@) =~= done + extended(left_texts[a as int], right_texts, first).take(
                0,
            ));
            while c < right.len()
                invariant
                    c <= right.len(),
                    a < ids.len(),
                    left_texts == texts(ids@),
                    right_texts == texts(right@),
                    texts(next@) == done + extended(left_texts[a as int], right_texts, first).take(
                        c as int,
                    ),
                decreases right.len() - c,
            {
                let ghost before = texts(next@);
                assert(left_texts[a as int] == ids@[a as int]@);
                assert(right_texts[c as int] == right@[c as int]@);
                let id: String = if first {
                    right[c].clone()
                } else {
                    let mut id = ids[a].clone();
                    id.append("-");
                    id.append(right[c].as_str());
                    id
                };
                next.push(id);
                assert(texts(next@) =~= before.push(id@));
                assert(extended(left_texts[a as int], right_texts, first).take(c + 1) =~= extended(
                    left_texts[a as int],
                    right_texts,
                    first,
                ).take(c as int).push(id@));
                c += 1;
            }
            assert(extended(left_texts[a as int], right_texts, first).take(right.len() as int)
                =~= extended(left_texts[a as int], right_texts, first));
            a += 1;
        }
        ids = next;
        n += 1;
    }
    let unique = deduplicate_ids(ids);
    let mut i: usize = 0;
    while i < unique.len()
        invariant
            i <= unique.len(),
            cases.len() == i,
            forall|k: int| 0 <= k < i ==> (#[trigger] cases[k]).case_id@ == unique@[k]@,
        decreases unique.len() - i,
    {
        cases.push(ExpandedCase { case_id: unique[i].clone() });
        i += 1;
    }
    assert(case_ids(cases@) =~= texts(unique@));
    cases
}

/// The name under which a call is reported: the name called, or the
/// attribute called.
pub open spec fn call_name(func: Expr) -> Seq<char> {
    match func {
        Expr::Name(name) => name@,
        Expr::Attribute { value, attr } => attr@,
        _ => "unknown"@,
    }
}

/// The kind of an expression in words.
pub open spec fn kind_name(e: Expr) -> Seq<char> {
    match e {
        Expr::Name(_) => "variable reference"@,
        Expr::Attribute { value, attr } => "attribute access"@,
        Expr::Call { func, args, keywords } => "function call"@,
        Expr::StringLiteral(_) => "string literal"@,
        Expr::IntLiteral(_) => "number literal"@,
        Expr::FloatLiteral(_) => "number literal"@,
        Expr::ComplexLiteral => "complex numbers"@,
        Expr::BooleanLiteral(_) => "boolean literal"@,
        Expr::NoneLiteral => "None"@,
        Expr::Negative(_) => "unary operation"@,
        Expr::List(_) => "list"@,
        Expr::Tuple(_) => "tuple"@,
        Expr::Comprehension => "comprehension"@,
        Expr::Other(kind) => kind@,
    }
}

/// The value of an integer literal: the number where it fits 64 bits,
/// else its text.
pub open spec fn int_literal(text: Seq<char>) -> LiteralView {
    match written_count(text) {
        Some(n) => if n <= i64::MAX {
            LiteralView::Int(n as i64)
        } else {
            LiteralView::Text(text)
        },
        None => LiteralView::Text(text),
    }
}

/// The value that an expression writes, or the reason why it writes none
/// that can be read without running code.
pub open spec fn literal_of(e: Expr) -> Result<LiteralView, ReasonView>
    decreases e, 0int,
{
    match e {
        Expr::IntLiteral(text) => Ok(int_literal(text@)),
        Expr::FloatLiteral(text) => Ok(LiteralView::Float(text@)),
        Expr::StringLiteral(text) => Ok(LiteralView::Text(text@)),
        Expr::BooleanLiteral(b) => Ok(LiteralView::Bool(b)),
        Expr::NoneLiteral => Ok(LiteralView::NoneValue),
        Expr::Tuple(items) => match literals_of(items@, items@.len() as int) {
            Ok(values) => Ok(LiteralView::Sequence(values)),
            Err(reason) => Err(reason),
        },
        Expr::List(items) => match literals_of(items@, items@.len() as int) {
            Ok(values) => Ok(LiteralView::Sequence(values)),
            Err(reason) => Err(reason),
        },
        Expr::Name(name) => Err(ReasonView::VariableReference(name@)),
        Expr::Call { func, args, keywords } => Err(ReasonView::FunctionCall(call_name(*func))),
        Expr::Comprehension => Err(ReasonView::Comprehension),
        _ => Err(ReasonView::UnsupportedExpression(kind_name(e))),
    }
}

/// The values that the first `n` expressions write, or the first reason
/// why one of them writes none.
pub open spec fn literals_of(items: Seq<Expr>, n: int) -> Result<Seq<LiteralView>, ReasonView>
    decreases items, n,
{
    if n <= 0 || n > items.len() {
        Ok(Seq::empty())
    } else {
        match literals_of(items, n - 1) {
            Err(reason) => Err(reason),
            Ok(before) => match literal_of(items[n - 1]) {
                Err(reason) => Err(reason),
                Ok(value) => Ok(before.push(value)),
            },
        }
    }
}

/// Once a value cannot be read, the reason is the result, whatever follows.
pub proof fn lemma_first_reason_stays(items: Seq<Expr>, n: int, m: int)
    requires
        0 <= n <= m <= items.len(),
        literals_of(items, n) is Err,
    ensures
        literals_of(items, m) == literals_of(items, n),
    decreases m - n,
{
    if n < m {
        lemma_first_reason_stays(items, n, m - 1);
    }
}

/// The name under which a call is reported.
pub fn get_call_name(func: &Expr) -> (name: String)
    ensures
        name@ == call_name(*func),
{
    match func {
        Expr::Name(name) => name.clone(),
        Expr::Attribute { value, attr } => attr.clone(),
        _ => String::from_str("unknown"),
    }
}

/// The kind of an expression in words.
pub fn expr_type_name(expr: &Expr) -> (name: String)
    ensures
        name@ == kind_name(*expr),
{
    match expr {
        Expr::Name(_) => String::from_str("variable reference"),
        Expr::Attribute { value, attr } => String::from_str("attribute access"),
        Expr::Call { func, args, keywords } => String::from_str("function call"),
        Expr::StringLiteral(_) => String::from_str("string literal"),
        Expr::IntLiteral(_) => String::from_str("number literal"),
        Expr::FloatLiteral(_) => String::from_str("number literal"),
        Expr::ComplexLiteral => String::from_str("complex numbers"),
        Expr::BooleanLiteral(_) => String::from_str("boolean literal"),
        Expr::NoneLiteral => String::from_str("None"),
        Expr::Negative(_) => String::from_str("unary operation"),
        Expr::List(_) => String::from_str("list"),
        Expr::Tuple(_) => String::from_str("tuple"),
        Expr::Comprehension => String::from_str("comprehension"),
        Expr::Other(kind) => kind.clone(),
    }
}

/// The values that the expressions write.
fn extract_literals(items: &Vec<Expr>) -> (r: Result<Vec<LiteralValue>, CannotExpandReason>)
    ensures
        match r {
            Ok(values) => literals_of(items@, items@.len() as int) == Ok::<
                Seq<LiteralView>,
                ReasonView,
            >(literal_views(values@, values@.len() as int)),
            Err(reason) => literals_of(items@, items@.len() as int) == Err::<
                Seq<LiteralView>,
                ReasonView,
            >(reason@),
        },
    decreases items,
{
    let mut values: Vec<LiteralValue> = Vec::new();
    let mut i: usize = 0;
    assert(literal_views(values@, 0) =~= Seq::<LiteralView>::empty());
    while i < items.len()
        invariant
            i <= items.len(),
            values.len() == i,
            literals_of(items@, i as int) == Ok::<Seq<LiteralView>, ReasonView>(
                literal_views(values@, values@.len() as int),
            ),
        decreases items.len() - i,
    {
        assert(decreases_to!(items => items[i as int]));
        let ghost before = values@;
        match extract_literal(&items[i]) {
            Ok(value) => {
                values.push(value);
                proof {
                    lemma_view_ids(before, before.len() as int);
                    lemma_view_ids(values@, values@.len() as int);
                    assert(literal_views(values@, values@.len() as int) =~= literal_views(
                        before,
                        before.len() as int,
                    ).push(literal_view(value)));
                }
            },
            Err(reason) => {
                proof {
                    lemma_first_reason_stays(items@, i + 1, items@.len() as int);
                }
                return Err(reason);
            },
        }
        i += 1;
    }
    Ok(values)
}

/// The value that an expression writes, or the reason why it writes none
/// that can be read without running code.
pub fn extract_literal(expr: &Expr) -> (r: Result<LiteralValue, CannotExpandReason>)
    ensures
        match r {
            Ok(value) => literal_of(*expr) == Ok::<LiteralView, ReasonView>(literal_view(value)),
            Err(reason) => literal_of(*expr) == Err::<LiteralView, ReasonView>(reason@),
        },
    decreases expr,
{
    match expr {
        Expr::IntLiteral(text) => {
            match parse_count(text.as_str()) {
                Some(n) => {
                    if (n as u64) <= 9223372036854775807u64 {
                        Ok(LiteralValue::Int(n as i64))
                    } else {
                        Ok(LiteralValue::String(text.clone()))
                    }
                },
                None => Ok(LiteralValue::String(text.clone())),
            }
        },
        Expr::FloatLiteral(text) => Ok(LiteralValue::Float(text.clone())),
        Expr::StringLiteral(text) => Ok(LiteralValue::String(text.clone())),
        Expr::BooleanLiteral(b) => Ok(LiteralValue::Bool(*b)),
        Expr::NoneLiteral => Ok(LiteralValue::NoneValue),
        Expr::Tuple(items) => {
            match extract_literals(items) {
                Ok(values) => Ok(LiteralValue::Sequence(values)),
                Err(reason) => Err(reason),
            }
        },
        Expr::List(items) => {
            match extract_literals(items) {
                Ok(values) => Ok(LiteralValue::Sequence(values)),
                Err(reason) => Err(reason),
            }
        },
        Expr::Name(name) => Err(CannotExpandReason::VariableReference(name.clone())),
        Expr::Call { func, args, keywords } => Err(
            CannotExpandReason::FunctionCall(get_call_name(func)),
        ),
        Expr::Comprehension => Err(CannotExpandReason::Comprehension),
        _ => Err(CannotExpandReason::UnsupportedExpression(expr_type_name(expr))),
    }
}

/// The names among the first `n` that are not empty.
pub open spec fn nonempty_names(names: Seq<Seq<char>>, n: int) -> Seq<Seq<char>>
    decreases n,
{
    if n <= 0 {
        Seq::empty()
    } else if names[n - 1].len() > 0 {
        nonempty_names(names, n - 1).push(names[n - 1])
    } else {
        nonempty_names(names, n - 1)
    }
}

/// The argument names that the first argument declares: the non-empty
/// pieces of a comma-separated string.
pub open spec fn argnames_of(e: Expr) -> Result<Seq<Seq<char>>, ReasonView> {
    match e {
        Expr::StringLiteral(text) => {
            let pieces = split_names(text@, 0);
            let names = nonempty_names(pieces, pieces.len() as int);
            if names.len() == 0 {
                Err(ReasonView::UnsupportedExpression("empty argnames"@))
            } else {
                Ok(names)
            }
        },
        Expr::Name(name) => Err(ReasonView::VariableReference(name@)),
        _ => Err(ReasonView::UnsupportedExpression("argnames must be a string"@)),
    }
}

/// The values that the second argument declares, where it is a literal
/// list or tuple of values.
pub open spec fn argvalues_of(e: Expr) -> Result<Seq<LiteralView>, ReasonView> {
    match e {
        Expr::List(items) => literals_of(items@, items@.len() as int),
        Expr::Tuple(items) => literals_of(items@, items@.len() as int),
        Expr::Name(name) => Err(ReasonView::VariableReference(name@)),
        Expr::Call { func, args, keywords } => Err(ReasonView::FunctionCall(call_name(*func))),
        Expr::Comprehension => Err(ReasonView::Comprehension),
        _ => Err(ReasonView::UnsupportedExpression("argvalues must be a list or tuple"@)),
    }
}

/// The argument names that the first argument of a decorator declares.
pub fn extract_argnames(expr: &Expr) -> (r: Result<Vec<String>, CannotExpandReason>)
    ensures
        match r {
            Ok(names) => argnames_of(*expr) == Ok::<Seq<Seq<char>>, ReasonView>(texts(names@)),
            Err(reason) => argnames_of(*expr) == Err::<Seq<Seq<char>>, ReasonView>(reason@),
        },
{
    match expr {
        Expr::StringLiteral(text) => {
            let pieces = split_param_names(text.as_str());
            let ghost all = texts(pieces@);
            let mut names: Vec<String> = Vec::new();
            let mut i: usize = 0;
            assert(texts(names@) =~= nonempty_names(all, 0));
            while i < pieces.len()
                invariant
                    i <= pieces.len(),
                    all == texts(pieces@),
                    texts(names@) == nonempty_names(all, i as int),
                decreases pieces.len() - i,
            {
                let ghost before = texts(names@);
                assert(all[i as int] == pieces@[i as int]@);
                let empty: bool = str_eq(pieces[i].as_str(), "");
                proof {
                    reveal_strlit("");
                    assert(""@.len() == 0);
                    if pieces@[i as int]@.len() == 0 {
                        assert(pieces@[i as int]@ =~= ""@);
                    }
                }
                if !empty {
                    names.push(pieces[i].clone());
                    assert(texts(names@) =~= before.push(pieces@[i as int]@));
                }
                i += 1;
            }
            if names.len() == 0 {
                Err(CannotExpandReason::UnsupportedExpression(String::from_str("empty argnames")))
            } else {
                Ok(names)
            }
        },
        Expr::Name(name) => Err(CannotExpandReason::VariableReference(name.clone())),
        _ => Err(
            CannotExpandReason::UnsupportedExpression(String::from_str("argnames must be a string")),
        ),
    }
}

/// The values that the second argument of a decorator declares.
pub fn extract_argvalues(expr: &Expr) -> (r: Result<Vec<LiteralValue>, CannotExpandReason>)
    ensures
        match r {
            Ok(values) => argvalues_of(*expr) == Ok::<Seq<LiteralView>, ReasonView>(
                literal_views(values@, values@.len() as int),
            ),
            Err(reason) => argvalues_of(*expr) == Err::<Seq<LiteralView>, ReasonView>(reason@),
        },
{
    match expr {
        Expr::List(items) => extract_literals(items),
        Expr::Tuple(items) => extract_literals(items),
        Expr::Name(name) => Err(CannotExpandReason::VariableReference(name.clone())),
        Expr::Call { func, args, keywords } => Err(
            CannotExpandReason::FunctionCall(get_call_name(func)),
        ),
        Expr::Comprehension => Err(CannotExpandReason::Comprehension),
        _ => Err(
            CannotExpandReason::UnsupportedExpression(
                String::from_str("argvalues must be a list or tuple"),
            ),
        ),
    }
}

/// The identifiers that the first `ids=` keyword at or after `from` gives
/// whose value is a literal list or tuple of values: the identifier of
/// each value.
pub open spec fn ids_of(keywords: Seq<Keyword>, from: int) -> Option<Seq<Seq<char>>>
    decreases keywords.len() - from,
{
    if from < 0 || from >= keywords.len() {
        None
    } else if keywords[from].arg matches Some(arg) && arg@ == "ids"@ {
        match literal_of(keywords[from].value) {
            Ok(LiteralView::Sequence(values)) => Some(view_ids(values, values.len() as int)),
            _ => ids_of(keywords, from + 1),
        }
    } else {
        ids_of(keywords, from + 1)
    }
}

/// The identifiers that the `ids=` keyword gives.
pub fn extract_ids_kwarg(keywords: &Vec<Keyword>) -> (r: Option<Vec<String>>)
    ensures
        match r {
            Some(ids) => ids_of(keywords@, 0) == Some(texts(ids@)),
            None => ids_of(keywords@, 0) is None,
        },
{
    let mut i: usize = 0;
    while i < keywords.len()
        invariant
            i <= keywords.len(),
            ids_of(keywords@, 0) == ids_of(keywords@, i as int),
        decreases keywords.len() - i,
    {
        let is_ids: bool = match &keywords[i].arg {
            Some(arg) => str_eq(arg.as_str(), "ids"),
            None => false,
        };
        if is_ids {
            match extract_literal(&keywords[i].value) {
                Ok(LiteralValue::Sequence(values)) => {
                    let ghost views = literal_views(values@, values@.len() as int);
                    let mut ids: Vec<String> = Vec::new();
                    let mut k: usize = 0;
                    assert(texts(ids@) =~= view_ids(views, 0));
                    proof {
                        lemma_view_ids(values@, values@.len() as int);
                    }
                    while k < values.len()
                        invariant
                            k <= values.len(),
                            views == literal_views(values@, values@.len() as int),
                            views.len() == values@.len(),
                            forall|m: int|
                                0 <= m < values@.len() ==> (#[trigger] views[m]) == literal_view(
                                    values@[m],
                                ),
                            texts(ids@) == view_ids(views, k as int),
                        decreases values.len() - k,
                    {
                        let ghost before = texts(ids@);
                        let id = literal_to_id_string(&values[k]);
                        assert(views[k as int] == literal_view(values@[k as int]));
                        ids.push(id);
                        assert(texts(ids@) =~= before.push(id@));
                        k += 1;
                    }
                    return Some(ids);
                },
                _ => {},
            }
        }
        i += 1;
    }
    None
}

/// Whether `func` is the decorator that declares cases: `rtest.mark.cases`
/// or `pytest.mark.parametrize`.
pub open spec fn declares_cases(func: Expr) -> bool {
    match func {
        Expr::Attribute { value, attr } => match *value {
            Expr::Attribute { value: module, attr: mark } => mark@ == "mark"@ && (match *module {
                Expr::Name(name) => (name@ == "rtest"@ && attr@ == "cases"@) || (name@
                    == "pytest"@ && attr@ == "parametrize"@),
                _ => false,
            }),
            _ => false,
        },
        _ => false,
    }
}

/// Whether `func` is the decorator that declares cases.
pub fn is_cases_or_parametrize_call(func: &Expr) -> (r: bool)
    ensures
        r == declares_cases(*func),
{
    match func {
        Expr::Attribute { value, attr } => {
            match &**value {
                Expr::Attribute { value: module, attr: mark } => {
                    if !str_eq(mark.as_str(), "mark") {
                        return false;
                    }
                    match &**module {
                        Expr::Name(name) => {
                            (str_eq(name.as_str(), "rtest") && str_eq(attr.as_str(), "cases")) || (
                            str_eq(name.as_str(), "pytest") && str_eq(attr.as_str(), "parametrize"))
                        },
                        _ => false,
                    }
                },
                _ => false,
            }
        },
        _ => false,
    }
}

/// What one decorator says of cases.
pub open spec fn parsed_decorator(decorator: Expr) -> ParsedView {
    match decorator {
        Expr::Call { func, args, keywords } => if !declares_cases(*func) {
            ParsedView::NotCases
        } else if args@.len() < 2 {
            ParsedView::CannotExpand(
                ReasonView::UnsupportedExpression("missing required arguments"@),
            )
        } else {
            match argnames_of(args@[0]) {
                Err(reason) => ParsedView::CannotExpand(reason),
                Ok(argnames) => match argvalues_of(args@[1]) {
                    Err(reason) => ParsedView::CannotExpand(reason),
                    Ok(argvalues) => ParsedView::Cases(
                        CasesView { argnames, argvalues, ids: ids_of(keywords@, 0) },
                    ),
                },
            }
        },
        _ => ParsedView::NotCases,
    }
}

/// The result in the language of contracts.
pub open spec fn parsed_view(result: DecoratorParseResult) -> ParsedView {
    match result {
        DecoratorParseResult::CasesSpec(spec) => ParsedView::Cases(spec@),
        DecoratorParseResult::CannotExpand(reason) => ParsedView::CannotExpand(reason@),
        DecoratorParseResult::NotCasesDecorator => ParsedView::NotCases,
    }
}

/// What one decorator says of cases.
pub fn parse_single_decorator(decorator: &Expr) -> (r: DecoratorParseResult)
    ensures
        parsed_view(r) == parsed_decorator(*decorator),
{
    match decorator {
        Expr::Call { func, args, keywords } => {
            if !is_cases_or_parametrize_call(func) {
                return DecoratorParseResult::NotCasesDecorator;
            }
            if args.len() < 2 {
                return DecoratorParseResult::CannotExpand(
                    CannotExpandReason::UnsupportedExpression(
                        String::from_str("missing required arguments"),
                    ),
                );
            }
            let argnames = match extract_argnames(&args[0]) {
                Ok(names) => names,
                Err(reason) => {
                    return DecoratorParseResult::CannotExpand(reason);
                },
            };
            let argvalues = match extract_argvalues(&args[1]) {
                Ok(values) => values,
                Err(reason) => {
                    return DecoratorParseResult::CannotExpand(reason);
                },
            };
            let ids = extract_ids_kwarg(keywords);
            DecoratorParseResult::CasesSpec(CasesSpec { argnames, argvalues, ids })
        },
        _ => DecoratorParseResult::NotCasesDecorator,
    }
}

/// What the first `n` decorators declare: the cases of each in the order
/// of the decorators, or the first reason why one cannot be read.
pub open spec fn declared_cases(decorators: Seq<Expr>, n: int) -> Result<Seq<CasesView>, ReasonView>
    decreases n,
{
    if n <= 0 {
        Ok(Seq::empty())
    } else {
        match declared_cases(decorators, n - 1) {
            Err(reason) => Err(reason),
            Ok(before) => match parsed_decorator(decorators[n - 1]) {
                ParsedView::Cases(spec) => Ok(before.push(spec)),
                ParsedView::CannotExpand(reason) => Err(reason),
                ParsedView::NotCases => Ok(before),
            },
        }
    }
}

/// Once a decorator cannot be read, the reason is the result, whatever
/// follows.
pub proof fn lemma_first_unreadable_stays(decorators: Seq<Expr>, n: int, m: int)
    requires
        n <= m,
        declared_cases(decorators, n) is Err,
    ensures
        declared_cases(decorators, m) == declared_cases(decorators, n),
    decreases m - n,
{
    if n < m {
        lemma_first_unreadable_stays(decorators, n, m - 1);
    }
}

/// What the decorators of a function say of its cases: the expanded cases
/// where decorators declare cases that can all be read, the reason of the
/// first decorator that cannot be read, or that no decorator declares
/// cases.
pub fn parse_decorators_for_cases(decorators: &Vec<Expr>) -> (r: CasesExpansion)
    ensures
        match declared_cases(decorators@, decorators@.len() as int) {
            Err(reason) => r is CannotExpand && r->CannotExpand_0@ == reason,
            Ok(specs) => if specs.len() == 0 {
                r is NotDecorated
            } else {
                r is Expanded && case_ids(r->Expanded_0@) == expanded_ids(specs)
            },
        },
{
    let mut specs: Vec<CasesSpec> = Vec::new();
    let mut i: usize = 0;
    assert(specs_view(specs@) =~= Seq::<CasesView>::empty());
    while i < decorators.len()
        invariant
            i <= decorators.len(),
            declared_cases(decorators@, i as int) == Ok::<Seq<CasesView>, ReasonView>(
                specs_view(specs@),
            ),
        decreases decorators.len() - i,
    {
        let ghost before = specs_view(specs@);
        match parse_single_decorator(&decorators[i]) {
            DecoratorParseResult::CasesSpec(spec) => {
                specs.push(spec);
                assert(specs_view(specs@) =~= before.push(spec@));
            },
            DecoratorParseResult::CannotExpand(reason) => {
                proof {
                    lemma_first_unreadable_stays(decorators@, i + 1, decorators@.len() as int);
                }
                return CasesExpansion::CannotExpand(reason);
            },
            DecoratorParseResult::NotCasesDecorator => {},
        }
        i += 1;
    }
    if specs.len() == 0 {
        CasesExpansion::NotDecorated
    } else {
        CasesExpansion::Expanded(expand_cases(&specs))
    }
}

} // verus!
