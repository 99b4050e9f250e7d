//! Static reading of parametrize decorators: which decorators are
//! recognized, what their arguments say, and which identifier each row gets.
//!
//! Only literals, negated integers and attribute chains are interpreted.
//! Whatever else stands in a decorator makes the item uncertain; nothing is
//! evaluated.

use crate::python_discovery::ast::{Expr, Keyword};
use crate::python_discovery::import_tracker::{names_pytest, resolution, ImportLog, ImportTracker};
use crate::text::{
    find_char, index_of_char, lemma_index_of_char_bounds, str_eq, string_of_range, texts,
    to_chars,
};
use vstd::prelude::*;
use vstd::string::StringExecFns;

verus! {

/// What one parameter value contributes to a row's identifier.
#[derive(Debug, Clone)]
pub enum ParamValue {
    /// A value shown by its lexical form.
    Simple(String),
    /// A value that only the running program knows: it gets an automatic
    /// identifier.
    Complex,
    /// An attribute chain, shown by its dotted path; the host may show it
    /// otherwise.
    AttributeAccess(String),
}

/// A parameter value in the language of contracts.
pub enum ParamValueView {
    Simple(Seq<char>),
    Complex,
    AttributeAccess(Seq<char>),
}

impl View for ParamValue {
    type V = ParamValueView;

    open spec fn view(&self) -> ParamValueView {
        match self {
            ParamValue::Simple(s) => ParamValueView::Simple(s@),
            ParamValue::Complex => ParamValueView::Complex,
            ParamValue::AttributeAccess(s) => ParamValueView::AttributeAccess(s@),
        }
    }
}

/// One parametrize decorator whose arguments could be read.
#[derive(Debug, Clone)]
pub struct ParametrizeInfo {
    /// The parameter names.
    pub param_names: Vec<String>,
    /// One row of values for each item.
    pub values: Vec<Vec<ParamValue>>,
    /// The identifiers given with `ids=`, if they are a literal list of
    /// strings.
    pub explicit_ids: Option<Vec<String>>,
}

/// A parametrize decorator in the language of contracts.
pub struct ParametrizeView {
    pub names: Seq<Seq<char>>,
    pub rows: Seq<Seq<ParamValueView>>,
    pub ids: Option<Seq<Seq<char>>>,
}

/// The values of a row in the language of contracts.
pub open spec fn row_view(row: Seq<ParamValue>) -> Seq<ParamValueView> {
    row.map_values(|v: ParamValue| v@)
}

/// The rows of a decorator in the language of contracts.
pub open spec fn rows_view(rows: Seq<Vec<ParamValue>>) -> Seq<Seq<ParamValueView>> {
    rows.map_values(|row: Vec<ParamValue>| row_view(row@))
}

impl View for ParametrizeInfo {
    type V = ParametrizeView;

    open spec fn view(&self) -> ParametrizeView {
        ParametrizeView {
            names: texts(self.param_names@),
            rows: rows_view(self.values@),
            ids: match self.explicit_ids {
                Some(ids) => Some(texts(ids@)),
                None => None,
            },
        }
    }
}

impl ParamValue {
    /// A copy that shows the same.
    pub fn duplicate(&self) -> (r: ParamValue)
        ensures
            r@ == self@,
    {
        match self {
            ParamValue::Simple(s) => ParamValue::Simple(s.clone()),
            ParamValue::Complex => ParamValue::Complex,
            ParamValue::AttributeAccess(s) => ParamValue::AttributeAccess(s.clone()),
        }
    }
}

impl ParametrizeInfo {
    /// A copy that says the same.
    pub fn duplicate(&self) -> (r: ParametrizeInfo)
        ensures
            r@ == self@,
    {
        let mut param_names: Vec<String> = Vec::new();
        let mut i: usize = 0;
        while i < self.param_names.len()
            invariant
                i <= self.param_names.len(),
                param_names@ == self.param_names@.take(i as int),
            decreases self.param_names.len() - i,
        {
            param_names.push(self.param_names[i].clone());
            assert(param_names@ =~= self.param_names@.take(i + 1));
            i += 1;
        }
        assert(self.param_names@.take(self.param_names.len() as int) =~= self.param_names@);
        let mut values: Vec<Vec<ParamValue>> = Vec::new();
        let mut r: usize = 0;
        while r < self.values.len()
            invariant
                r <= self.values.len(),
                values.len() == r,
                forall|k: int|
                    0 <= k < r ==> row_view((#[trigger] values[k])@) == row_view(self.values[k]@),
            decreases self.values.len() - r,
        {
            let source = &self.values[r];
            let mut row: Vec<ParamValue> = Vec::new();
            let mut c: usize = 0;
            while c < source.len()
                invariant
                    c <= source.len(),
                    row.len() == c,
                    forall|k: int| 0 <= k < c ==> (#[trigger] row[k])@ == source[k]@,
                decreases source.len() - c,
            {
                row.push(source[c].duplicate());
                c += 1;
            }
            assert(row_view(row@) =~= row_view(source@));
            values.push(row);
            r += 1;
        }
        assert(rows_view(values@) =~= rows_view(self.values@));
        let explicit_ids: Option<Vec<String>> = match &self.explicit_ids {
            Some(ids) => {
                let mut copy: Vec<String> = Vec::new();
                let mut k: usize = 0;
                while k < ids.len()
                    invariant
                        k <= ids.len(),
                        copy@ == ids@.take(k as int),
                    decreases ids.len() - k,
                {
                    copy.push(ids[k].clone());
                    assert(copy@ =~= ids@.take(k + 1));
                    k += 1;
                }
                assert(ids@.take(ids.len() as int) =~= ids@);
                Some(copy)
            },
            None => None,
        };
        ParametrizeInfo { param_names, values, explicit_ids }
    }
}

/// The decorators of a list in the language of contracts.
pub open spec fn infos_view(infos: Seq<ParametrizeInfo>) -> Seq<ParametrizeView> {
    infos.map_values(|info: ParametrizeInfo| info@)
}

/// A printable ASCII character: neither a control character nor beyond
/// ASCII.
pub open spec fn is_plain_char(c: char) -> bool {
    ' ' <= c && c <= '~'
}

/// A text of printable ASCII characters only.
pub open spec fn is_plain_text(s: Seq<char>) -> bool {
    forall|i: int| 0 <= i < s.len() ==> is_plain_char(#[trigger] s[i])
}

/// ASCII white space.
pub open spec fn is_space(c: char) -> bool {
    c == ' ' || c == '\t' || c == '\n' || c == '\r' || c == '\x0b' || c == '\x0c'
}

/// The first position at or after `i` that holds no white space, or the
/// length of `s`.
pub open spec fn skip_spaces(s: Seq<char>, i: int) -> int
    decreases s.len() - i,
{
    if i < 0 || i >= s.len() {
        s.len() as int
    } else if is_space(s[i]) {
        skip_spaces(s, i + 1)
    } else {
        i
    }
}

/// The least end at or above `lo` such that `s[end..hi]` is white space.
pub open spec fn drop_spaces(s: Seq<char>, lo: int, hi: int) -> int
    decreases hi,
{
    if hi <= lo || hi > s.len() || lo < 0 {
        lo
    } else if is_space(s[hi - 1]) {
        drop_spaces(s, lo, hi - 1)
    } else {
        hi
    }
}

/// `s[from..to]` without the white space at its ends.
pub open spec fn trimmed(s: Seq<char>, from: int, to: int) -> Seq<char> {
    let lo = skip_spaces(s.subrange(0, to), from);
    s.subrange(lo, drop_spaces(s, lo, to))
}

/// The pieces of `s[from..]` between commas, each without the white space
/// at its ends.
pub open spec fn split_names(s: Seq<char>, from: int) -> Seq<Seq<char>>
    decreases s.len() - from,
{
    if from < 0 || from > s.len() {
        Seq::empty()
    } else {
        let end = index_of_char(s, ',', from);
        if end >= s.len() {
            seq![trimmed(s, from, s.len() as int)]
        } else {
            proof {
                lemma_index_of_char_bounds(s, ',', from);
            }
            seq![trimmed(s, from, end)] + split_names(s, end + 1)
        }
    }
}

/// The dotted path of the attribute `attr` of `value`: the whole chain
/// where it starts at a name, else the attribute alone.
pub open spec fn attribute_path(value: Expr, attr: Seq<char>) -> Seq<char>
    decreases value,
{
    match value {
        Expr::Name(n) => n@ + seq!['.'] + attr,
        Expr::Attribute { value: inner, attr: inner_attr } => attribute_path(*inner, inner_attr@)
            + seq!['.'] + attr,
        _ => attr,
    }
}

/// What the expression contributes to a row's identifier.
pub open spec fn param_value(e: Expr) -> ParamValueView {
    match e {
        Expr::IntLiteral(s) => ParamValueView::Simple(s@),
        Expr::FloatLiteral(s) => ParamValueView::Simple(s@),
        Expr::StringLiteral(s) => if is_plain_text(s@) {
            ParamValueView::Simple(s@)
        } else {
            ParamValueView::Complex
        },
        Expr::BooleanLiteral(b) => ParamValueView::Simple(
            if b {
                "True"@
            } else {
                "False"@
            },
        ),
        Expr::NoneLiteral => ParamValueView::Simple("None"@),
        Expr::Negative(inner) => match *inner {
            Expr::IntLiteral(s) => ParamValueView::Simple(seq!['-'] + s@),
            _ => ParamValueView::Complex,
        },
        Expr::Attribute { value, attr } => ParamValueView::AttributeAccess(
            attribute_path(*value, attr@),
        ),
        Expr::Name(n) => ParamValueView::Simple(n@),
        _ => ParamValueView::Complex,
    }
}

/// The values of the expressions.
pub open spec fn param_values(items: Seq<Expr>) -> Seq<ParamValueView> {
    items.map_values(|e: Expr| param_value(e))
}

/// Whether the first `n` expressions are all string literals.
pub open spec fn all_strings(items: Seq<Expr>, n: int) -> bool {
    forall|i: int| 0 <= i < n ==> (#[trigger] items[i]) is StringLiteral
}

/// The values of string literals.
pub open spec fn string_values(items: Seq<Expr>) -> Seq<Seq<char>> {
    Seq::new(items.len(), |i: int| items[i]->StringLiteral_0@)
}

/// The strings that a literal list or tuple of strings holds.
pub open spec fn string_list(e: Expr) -> Option<Seq<Seq<char>>> {
    match e {
        Expr::List(items) => if all_strings(items@, items@.len() as int) {
            Some(string_values(items@))
        } else {
            None
        },
        Expr::Tuple(items) => if all_strings(items@, items@.len() as int) {
            Some(string_values(items@))
        } else {
            None
        },
        _ => None,
    }
}

/// The parameter names that the first argument declares: the pieces of a
/// comma-separated string, or the strings of a literal tuple or list.
pub open spec fn declared_names(e: Expr) -> Option<Seq<Seq<char>>> {
    match e {
        Expr::StringLiteral(s) => Some(split_names(s@, 0)),
        _ => string_list(e),
    }
}

/// The values of one row: the elements of a tuple or list that matches an
/// arity above one, else the row as a single value.
pub open spec fn row_values(row: Expr, arity: nat) -> Seq<ParamValueView> {
    match row {
        Expr::Tuple(items) => if items@.len() == arity && arity > 1 {
            param_values(items@)
        } else {
            seq![param_value(row)]
        },
        Expr::List(items) => if items@.len() == arity && arity > 1 {
            param_values(items@)
        } else {
            seq![param_value(row)]
        },
        _ => seq![param_value(row)],
    }
}

/// The rows that the second argument declares, where it is a literal list.
pub open spec fn declared_rows(e: Expr, arity: nat) -> Option<Seq<Seq<ParamValueView>>> {
    match e {
        Expr::List(rows) => Some(rows@.map_values(|row: Expr| row_values(row, arity))),
        _ => None,
    }
}

/// The identifiers that the first `ids=` keyword among `keywords[from..]`
/// gives, where they are a literal list of strings.
pub open spec fn declared_ids(keywords: Seq<Keyword>, from: int) -> Option<Seq<Seq<char>>>
    decreases keywords.len() - from,
{
    if from < 0 || from >= keywords.len() {
        None
    } else if keywords[from].arg matches Some(name) && name@ == "ids"@ {
        string_list(keywords[from].value)
    } else {
        declared_ids(keywords, from + 1)
    }
}

/// What the arguments of a parametrize call say, where they can be read.
pub open spec fn declared_info(args: Seq<Expr>, keywords: Seq<Keyword>) -> Option<
    ParametrizeView,
> {
    if args.len() < 2 {
        None
    } else {
        match declared_names(args[0]) {
            None => None,
            Some(names) => match declared_rows(args[1], names.len()) {
                None => None,
                Some(rows) => Some(
                    ParametrizeView { names, rows, ids: declared_ids(keywords, 0) },
                ),
            },
        }
    }
}

/// Whether `e` names the marker namespace of the host framework: `mark`
/// under any local name, or the attribute `mark` of the framework's module
/// under any local name.
pub open spec fn is_mark_expr(imports: ImportLog, e: Expr) -> bool {
    match e {
        Expr::Name(n) => resolution(imports, n@) == Some("pytest.mark"@),
        Expr::Attribute { value, attr } => attr@ == "mark"@ && (match *value {
            Expr::Name(n) => names_pytest(imports, n@),
            _ => false,
        }),
        _ => false,
    }
}

/// Whether `func` is the parametrize marker reached through the marker
/// namespace.
pub open spec fn is_parametrize_attr(imports: ImportLog, func: Expr) -> bool {
    match func {
        Expr::Attribute { value, attr } => attr@ == "parametrize"@ && is_mark_expr(
            imports,
            *value,
        ),
        _ => false,
    }
}

/// Whether `func` is a bare name that stands for a parametrize marker: the
/// name `parametrize` itself or a name bound to the marker by import.
pub open spec fn is_parametrize_name(imports: ImportLog, func: Expr) -> bool {
    match func {
        Expr::Name(n) => n@ == "parametrize"@ || resolution(imports, n@) == Some(
            "pytest.mark.parametrize"@,
        ),
        _ => false,
    }
}

/// Whether `func` is a bare name that an import binds to the parametrize
/// marker.
pub open spec fn is_bound_parametrize(imports: ImportLog, func: Expr) -> bool {
    match func {
        Expr::Name(n) => resolution(imports, n@) == Some("pytest.mark.parametrize"@),
        _ => false,
    }
}

/// Whether the decorator is recognized as a parametrize decorator.
pub open spec fn is_parametrize(imports: ImportLog, decorator: Expr) -> bool {
    match decorator {
        Expr::Call { func, args, keywords } => is_parametrize_attr(imports, *func)
            || is_parametrize_name(imports, *func),
        _ => false,
    }
}

/// What a decorator says where its arguments can be read and it is a
/// parametrize marker that is known to be the host framework's: reached
/// through the marker namespace, or called by a name that an import binds
/// to it. The name `parametrize` that no import binds may be anything, so
/// a call of it is recognized but never read.
pub open spec fn expansion(imports: ImportLog, decorator: Expr) -> Option<ParametrizeView> {
    match decorator {
        Expr::Call { func, args, keywords } => if is_parametrize_attr(imports, *func)
            || is_bound_parametrize(imports, *func) {
            declared_info(args@, keywords@)
        } else {
            None
        },
        _ => None,
    }
}

/// Whether a value is shown in a way that the host may not share.
pub open spec fn is_uncertain_value(v: ParamValueView) -> bool {
    v is Complex || v is AttributeAccess
}

/// Whether some value of the decorator is uncertain.
pub open spec fn has_uncertain_value(info: ParametrizeView) -> bool {
    exists|r: int, c: int|
        0 <= r < info.rows.len() && 0 <= c < info.rows[r].len() && is_uncertain_value(
            #[trigger] info.rows[r][c],
        )
}

/// Whether some value of some decorator is uncertain.
pub open spec fn any_uncertain_value(infos: Seq<ParametrizeView>) -> bool {
    exists|i: int| 0 <= i < infos.len() && has_uncertain_value(#[trigger] infos[i])
}

fn is_plain(c: char) -> (r: bool)
    ensures
        r == is_plain_char(c),
{
    ' ' <= c && c <= '~'
}

/// Whether the character is ASCII white space.
pub fn is_space_char(c: char) -> (r: bool)
    ensures
        r == is_space(c),
{
    c == ' ' || c == '\t' || c == '\n' || c == '\r' || c == '\x0b' || c == '\x0c'
}

/// Whether the text holds printable ASCII characters only.
pub fn is_plain_string(s: &str) -> (r: bool)
    ensures
        r == is_plain_text(s@),
{
    let chars = to_chars(s);
    let mut i: usize = 0;
    while i < chars.len()
        invariant
            i <= chars.len(),
            chars@ == s@,
            forall|k: int| 0 <= k < i ==> is_plain_char(#[trigger] chars@[k]),
        decreases chars.len() - i,
    {
        if !is_plain(chars[i]) {
            return false;
        }
        i += 1;
    }
    true
}

/// The text `chars[from..to]` without the white space at its ends.
pub fn trim_range(chars: &Vec<char>, from: usize, to: usize) -> (s: String)
    requires
        from <= to <= chars.len(),
    ensures
        s@ == trimmed(chars@, from as int, to as int),
{
    let ghost head = chars@.subrange(0, to as int);
    let mut lo: usize = from;
    while lo < to && is_space_char(chars[lo])
        invariant
            from <= lo <= to <= chars.len(),
            head == chars@.subrange(0, to as int),
            skip_spaces(head, from as int) == skip_spaces(head, lo as int),
        decreases to - lo,
    {
        assert(head[lo as int] == chars@[lo as int]);
        lo += 1;
    }
    proof {
        if lo < to {
            assert(head[lo as int] == chars@[lo as int]);
        }
    }
    let mut hi: usize = to;
    while hi > lo && is_space_char(chars[hi - 1])
        invariant
            lo <= hi <= to <= chars.len(),
            drop_spaces(chars@, lo as int, to as int) == drop_spaces(chars@, lo as int, hi as int),
        decreases hi,
    {
        hi -= 1;
    }
    string_of_range(chars, lo, hi)
}

/// The parameter names written in a comma-separated string.
pub fn split_param_names(s: &str) -> (names: Vec<String>)
    ensures
        texts(names@) == split_names(s@, 0),
{
    let chars = to_chars(s);
    let mut names: Vec<String> = Vec::new();
    let mut from: usize = 0;
    loop
        invariant
            from <= chars.len(),
            chars@ == s@,
            texts(names@) + split_names(chars@, from as int) == split_names(chars@, 0),
        decreases chars.len() - from,
    {
        let end: usize = find_char(&chars, ',', from);
        let ghost before = texts(names@);
        if end >= chars.len() {
            names.push(trim_range(&chars, from, chars.len()));
            assert(texts(names@) =~= before + split_names(chars@, from as int));
            return names;
        }
        names.push(trim_range(&chars, from, end));
        assert(texts(names@) =~= before + seq![trimmed(chars@, from as int, end as int)]);
        assert(split_names(chars@, from as int) =~= seq![trimmed(chars@, from as int, end as int)]
            + split_names(chars@, end + 1));
        from = end + 1;
    }
}

/// The dotted path of the attribute `attr` of `value`.
pub fn format_attribute_path(value: &Expr, attr: &str) -> (path: String)
    ensures
        path@ == attribute_path(*value, attr@),
    decreases value,
{
    match value {
        Expr::Name(n) => {
            let mut path = n.clone();
            path.append(".");
            path.append(attr);
            proof {
                reveal_strlit(".");
                assert("."@ =~= seq!['.']);
            }
            path
        },
        Expr::Attribute { value: inner, attr: inner_attr } => {
            let mut path = format_attribute_path(inner, inner_attr.as_str());
            path.append(".");
            path.append(attr);
            proof {
                reveal_strlit(".");
                assert("."@ =~= seq!['.']);
            }
            path
        },
        _ => String::from_str(attr),
    }
}

/// What the expression contributes to a row's identifier: literals and
/// names by their lexical form, a negated integer with its sign, an
/// attribute chain by its dotted path, anything else as a value that needs
/// an automatic identifier.
pub fn format_param_value(expr: &Expr) -> (v: ParamValue)
    ensures
        v@ == param_value(*expr),
{
    match expr {
        Expr::IntLiteral(s) => ParamValue::Simple(s.clone()),
        Expr::FloatLiteral(s) => ParamValue::Simple(s.clone()),
        Expr::StringLiteral(s) => {
            if is_plain_string(s.as_str()) {
                ParamValue::Simple(s.clone())
            } else {
                ParamValue::Complex
            }
        },
        Expr::BooleanLiteral(b) => {
            if *b {
                ParamValue::Simple(String::from_str("True"))
            } else {
                ParamValue::Simple(String::from_str("False"))
            }
        },
        Expr::NoneLiteral => ParamValue::Simple(String::from_str("None")),
        Expr::Negative(inner) => {
            match &**inner {
                Expr::IntLiteral(s) => {
                    let mut text = String::from_str("-");
                    text.append(s.as_str());
                    proof {
                        reveal_strlit("-");
                        assert("-"@ =~= seq!['-']);
                    }
                    ParamValue::Simple(text)
                },
                _ => ParamValue::Complex,
            }
        },
        Expr::Attribute { value, attr } => ParamValue::AttributeAccess(
            format_attribute_path(value, attr.as_str()),
        ),
        Expr::Name(n) => ParamValue::Simple(n.clone()),
        _ => ParamValue::Complex,
    }
}

/// The values of the expressions, one for each.
fn format_all(items: &Vec<Expr>) -> (row: Vec<ParamValue>)
    ensures
        row_view(row@) == param_values(items@),
{
    let mut row: Vec<ParamValue> = Vec::new();
    let mut i: usize = 0;
    while i < items.len()
        invariant
            i <= items.len(),
            row.len() == i,
            forall|k: int| 0 <= k < i ==> (#[trigger] row[k])@ == param_value(items[k]),
        decreases items.len() - i,
    {
        row.push(format_param_value(&items[i]));
        i += 1;
    }
    assert(row_view(row@) =~= param_values(items@));
    row
}

/// The strings of the expressions where all of them are string literals.
fn strings_of(items: &Vec<Expr>) -> (r: Option<Vec<String>>)
    ensures
        match r {
            Some(v) => all_strings(items@, items@.len() as int) && texts(v@) == string_values(
                items@,
            ),
            None => !all_strings(items@, items@.len() as int),
        },
{
    let mut out: Vec<String> = Vec::new();
    let mut i: usize = 0;
    while i < items.len()
        invariant
            i <= items.len(),
            out.len() == i,
            all_strings(items@, i as int),
            forall|k: int| 0 <= k < i ==> (#[trigger] out[k])@ == items[k]->StringLiteral_0@,
        decreases items.len() - i,
    {
        match &items[i] {
            Expr::StringLiteral(s) => {
                out.push(s.clone());
            },
            _ => {
                assert(!(items@[i as int] is StringLiteral));
                return None;
            },
        }
        i += 1;
    }
    assert(texts(out@) =~= string_values(items@));
    Some(out)
}

/// The strings that a literal list or tuple of strings holds.
pub fn extract_ids_list(expr: &Expr) -> (r: Option<Vec<String>>)
    ensures
        match r {
            Some(v) => string_list(*expr) == Some(texts(v@)),
            None => string_list(*expr) is None,
        },
{
    match expr {
        Expr::List(items) => strings_of(items),
        Expr::Tuple(items) => strings_of(items),
        _ => None,
    }
}

/// The parameter names that the first argument of a parametrize call
/// declares.
pub fn extract_param_names(expr: &Expr) -> (r: Option<Vec<String>>)
    ensures
        match r {
            Some(v) => declared_names(*expr) == Some(texts(v@)),
            None => declared_names(*expr) is None,
        },
{
    match expr {
        Expr::StringLiteral(s) => Some(split_param_names(s.as_str())),
        _ => extract_ids_list(expr),
    }
}

/// The values of one row for `arity` parameters.
fn extract_row(row: &Expr, arity: usize) -> (values: Vec<ParamValue>)
    ensures
        row_view(values@) == row_values(*row, arity as nat),
{
    match row {
        Expr::Tuple(items) => {
            if items.len() == arity && arity > 1 {
                return format_all(items);
            }
        },
        Expr::List(items) => {
            if items.len() == arity && arity > 1 {
                return format_all(items);
            }
        },
        _ => {},
    }
    let mut values: Vec<ParamValue> = Vec::new();
    values.push(format_param_value(row));
    assert(row_view(values@) =~= seq![param_value(*row)]);
    values
}

/// The rows that the second argument of a parametrize call declares.
pub fn extract_param_values(expr: &Expr, param_count: usize) -> (r: Option<Vec<Vec<ParamValue>>>)
    ensures
        match r {
            Some(rows) => declared_rows(*expr, param_count as nat) == Some(rows_view(rows@)),
            None => declared_rows(*expr, param_count as nat) is None,
        },
{
    match expr {
        Expr::List(rows) => {
            let mut all: Vec<Vec<ParamValue>> = Vec::new();
            let mut i: usize = 0;
            while i < rows.len()
                invariant
                    i <= rows.len(),
                    all.len() == i,
                    forall|k: int|
                        0 <= k < i ==> row_view((#[trigger] all[k])@) == row_values(
                            rows[k],
                            param_count as nat,
                        ),
                decreases rows.len() - i,
            {
                all.push(extract_row(&rows[i], param_count));
                i += 1;
            }
            assert(rows_view(all@) =~= rows@.map_values(
                |row: Expr| row_values(row, param_count as nat),
            ));
            Some(all)
        },
        _ => None,
    }
}

/// The identifiers given with the first `ids=` keyword, where they are a
/// literal list of strings.
pub fn extract_explicit_ids(keywords: &Vec<Keyword>) -> (r: Option<Vec<String>>)
    ensures
        match r {
            Some(v) => declared_ids(keywords@, 0) == Some(texts(v@)),
            None => declared_ids(keywords@, 0) is None,
        },
{
    let mut i: usize = 0;
    while i < keywords.len()
        invariant
            i <= keywords.len(),
            declared_ids(keywords@, 0) == declared_ids(keywords@, i as int),
        decreases keywords.len() - i,
    {
        let is_ids: bool = match &keywords[i].arg {
            Some(name) => str_eq(name.as_str(), "ids"),
            None => false,
        };
        if is_ids {
            return extract_ids_list(&keywords[i].value);
        }
        i += 1;
    }
    None
}

/// What the arguments of a parametrize call say, where they can be read.
pub fn parse_parametrize_arguments(args: &Vec<Expr>, keywords: &Vec<Keyword>) -> (r: Option<
    ParametrizeInfo,
>)
    ensures
        match r {
            Some(info) => declared_info(args@, keywords@) == Some(info@),
            None => declared_info(args@, keywords@) is None,
        },
{
    if args.len() < 2 {
        return None;
    }
    let param_names = match extract_param_names(&args[0]) {
        Some(names) => names,
        None => {
            return None;
        },
    };
    let values = match extract_param_values(&args[1], param_names.len()) {
        Some(rows) => rows,
        None => {
            return None;
        },
    };
    let explicit_ids = extract_explicit_ids(keywords);
    Some(ParametrizeInfo { param_names, values, explicit_ids })
}

/// Whether `expr` names the marker namespace of the host framework.
pub fn is_pytest_mark_expr(tracker: &ImportTracker, expr: &Expr) -> (r: bool)
    ensures
        r == is_mark_expr(tracker.log(), *expr),
{
    match expr {
        Expr::Name(n) => {
            match tracker.resolve(n.as_str()) {
                Some(path) => str_eq(path, "pytest.mark"),
                None => false,
            }
        },
        Expr::Attribute { value, attr } => {
            if str_eq(attr.as_str(), "mark") {
                match &**value {
                    Expr::Name(n) => tracker.is_pytest(n.as_str()),
                    _ => false,
                }
            } else {
                false
            }
        },
        _ => false,
    }
}

/// Whether `func` is the parametrize marker reached through the marker
/// namespace.
pub fn is_parametrize_call(tracker: &ImportTracker, func: &Expr) -> (r: bool)
    ensures
        r == is_parametrize_attr(tracker.log(), *func),
{
    match func {
        Expr::Attribute { value, attr } => {
            str_eq(attr.as_str(), "parametrize") && is_pytest_mark_expr(tracker, value)
        },
        _ => false,
    }
}

/// Whether `func` is a bare name that an import binds to the parametrize
/// marker.
pub fn is_bound_parametrize_name(tracker: &ImportTracker, func: &Expr) -> (r: bool)
    ensures
        r == is_bound_parametrize(tracker.log(), *func),
{
    match func {
        Expr::Name(n) => match tracker.resolve(n.as_str()) {
            Some(path) => str_eq(path, "pytest.mark.parametrize"),
            None => false,
        },
        _ => false,
    }
}

/// Whether the decorator is recognized as a parametrize decorator, be its
/// arguments readable or not.
pub fn is_any_parametrize_call(tracker: &ImportTracker, decorator: &Expr) -> (r: bool)
    ensures
        r == is_parametrize(tracker.log(), *decorator),
{
    match decorator {
        Expr::Call { func, args, keywords } => {
            if is_parametrize_call(tracker, func) {
                return true;
            }
            match &**func {
                Expr::Name(n) => {
                    if str_eq(n.as_str(), "parametrize") {
                        true
                    } else {
                        match tracker.resolve(n.as_str()) {
                            Some(path) => str_eq(path, "pytest.mark.parametrize"),
                            None => false,
                        }
                    }
                },
                _ => false,
            }
        },
        _ => false,
    }
}

/// What a decorator says, where it is a parametrize marker of the host
/// framework and its arguments can be read.
pub fn parse_parametrize_decorator(tracker: &ImportTracker, decorator: &Expr) -> (r: Option<
    ParametrizeInfo,
>)
    ensures
        match r {
            Some(info) => expansion(tracker.log(), *decorator) == Some(info@),
            None => expansion(tracker.log(), *decorator) is None,
        },
{
    match decorator {
        Expr::Call { func, args, keywords } => {
            if is_parametrize_call(tracker, func) || is_bound_parametrize_name(tracker, func) {
                parse_parametrize_arguments(args, keywords)
            } else {
                None
            }
        },
        _ => None,
    }
}

/// Whether some parameter value of the decorators is shown in a way that
/// the host may not share: an attribute chain or an automatic identifier.
pub fn has_uncertain_param_values(infos: &Vec<ParametrizeInfo>) -> (r: bool)
    ensures
        r == any_uncertain_value(infos_view(infos@)),
{
    let ghost views = infos_view(infos@);
    let mut i: usize = 0;
    while i < infos.len()
        invariant
            i <= infos.len(),
            views == infos_view(infos@),
            forall|k: int| 0 <= k < i ==> !has_uncertain_value(#[trigger] views[k]),
        decreases infos.len() - i,
    {
        let info = &infos[i];
        let ghost view = views[i as int];
        assert(view == info@);
        let mut r: usize = 0;
        while r < info.values.len()
            invariant
                r <= info.values.len(),
                view == info@,
                i < infos.len(),
                views == infos_view(infos@),
                view == views[i as int],
                forall|a: int, c: int|
                    0 <= a < r && 0 <= c < view.rows[a].len() ==> !is_uncertain_value(
                        #[trigger] view.rows[a][c],
                    ),
            decreases info.values.len() - r,
        {
            let row = &info.values[r];
            assert(view.rows[r as int] == row_view(row@));
            let mut c: usize = 0;
            while c < row.len()
                invariant
                    c <= row.len(),
                    r < info.values.len(),
                    i < infos.len(),
                    views == infos_view(infos@),
                    view == views[i as int],
                    view.rows[r as int] == row_view(row@),
                    view.rows.len() == info.values.len(),
                    forall|b: int|
                        0 <= b < c ==> !is_uncertain_value(#[trigger] view.rows[r as int][b]),
                decreases row.len() - c,
            {
                let uncertain: bool = match &row[c] {
                    ParamValue::Simple(_) => false,
                    _ => true,
                };
                assert(view.rows[r as int][c as int] == row@[c as int]@);
                if uncertain {
                    assert(is_uncertain_value(view.rows[r as int][c as int]));
                    assert(has_uncertain_value(views[i as int]));
                    return true;
                }
                c += 1;
            }
            r += 1;
        }
        i += 1;
    }
    false
}

} // verus!
