//! The identifier suffix of each parametrized item: one identifier for each
//! row of a decorator, made unique within the decorator, and the Cartesian
//! product over stacked decorators.

use crate::partition::smaller;
use crate::python_discovery::parametrize::{
    infos_view, row_view, ParamValue, ParamValueView, ParametrizeInfo, ParametrizeView,
};
use crate::text::{decimal, join, join_strings, push_decimal, texts};
use vstd::prelude::*;
use vstd::string::StringExecFns;

verus! {

/// What one value shows in the identifier of row `row`: its text, or the
/// parameter's name followed by the row number where it has none.
pub open spec fn cell_id(value: ParamValueView, name: Seq<char>, row: nat) -> Seq<char> {
    match value {
        ParamValueView::Simple(s) => s,
        ParamValueView::AttributeAccess(s) => s,
        ParamValueView::Complex => name + decimal(row),
    }
}

/// The cells of one row, one for each value that has a parameter name.
pub open spec fn row_cells(names: Seq<Seq<char>>, values: Seq<ParamValueView>, row: nat) -> Seq<
    Seq<char>,
> {
    Seq::new(
        smaller(names.len() as int, values.len() as int) as nat,
        |c: int| cell_id(values[c], names[c], row),
    )
}

/// The identifier that a row gets from its values: the cells joined by
/// hyphens.
pub open spec fn auto_id(names: Seq<Seq<char>>, values: Seq<ParamValueView>, row: nat) -> Seq<
    char,
> {
    join(row_cells(names, values, row), seq!['-'])
}

/// The identifier of a row: the explicit one where the list of explicit
/// identifiers reaches that far, else the one made from the values.
pub open spec fn chosen_id(
    ids: Option<Seq<Seq<char>>>,
    names: Seq<Seq<char>>,
    values: Seq<ParamValueView>,
    row: nat,
) -> Seq<char> {
    match ids {
        Some(list) => if row < list.len() {
            list[row as int]
        } else {
            auto_id(names, values, row)
        },
        None => auto_id(names, values, row),
    }
}

/// The identifiers of the rows of a decorator, before duplicates are told
/// apart.
pub open spec fn raw_ids(info: ParametrizeView) -> Seq<Seq<char>> {
    Seq::new(info.rows.len(), |r: int| chosen_id(info.ids, info.names, info.rows[r], r as nat))
}

/// How often `id` occurs among the first `n` identifiers.
pub open spec fn occurrences(ids: Seq<Seq<char>>, id: Seq<char>, n: int) -> nat
    decreases n,
{
    if n <= 0 {
        0
    } else if ids[n - 1] == id {
        occurrences(ids, id, n - 1) + 1
    } else {
        occurrences(ids, id, n - 1)
    }
}

/// The identifier at position `i` told apart from equal ones before it: the
/// first occurrence stays, the next ones get `_1`, `_2`, and so on.
pub open spec fn unique_id(ids: Seq<Seq<char>>, i: int) -> Seq<char> {
    let seen = occurrences(ids, ids[i], i);
    if seen == 0 {
        ids[i]
    } else {
        ids[i] + seq!['_'] + decimal(seen)
    }
}

/// The identifiers with duplicates told apart.
pub open spec fn unique_ids(ids: Seq<Seq<char>>) -> Seq<Seq<char>> {
    Seq::new(ids.len(), |i: int| unique_id(ids, i))
}

/// The identifiers of the rows of one decorator.
pub open spec fn info_ids(info: ParametrizeView) -> Seq<Seq<char>> {
    unique_ids(raw_ids(info))
}

/// `left` followed by a hyphen and each identifier of `right`.
pub open spec fn cross_row(left: Seq<char>, right: Seq<Seq<char>>) -> Seq<Seq<char>> {
    Seq::new(right.len(), |c: int| left + seq!['-'] + right[c])
}

/// The products of the first `n` identifiers of `left` with all of `right`:
/// `left` varies slowest.
pub open spec fn cross_upto(left: Seq<Seq<char>>, right: Seq<Seq<char>>, n: int) -> Seq<Seq<char>>
    decreases n,
{
    if n <= 0 {
        Seq::empty()
    } else {
        cross_upto(left, right, n - 1) + cross_row(left[n - 1], right)
    }
}

/// The identifiers of the decorators from position `i` on, combined: the
/// last decorator, which stands closest to the function, gives the leftmost
/// segment and varies slowest.
pub open spec fn combinations_from(infos: Seq<ParametrizeView>, i: int) -> Seq<Seq<char>>
    decreases infos.len() - i,
{
    if i < 0 || i >= infos.len() {
        Seq::empty()
    } else if i == infos.len() - 1 {
        info_ids(infos[i])
    } else {
        let inner = combinations_from(infos, i + 1);
        cross_upto(inner, info_ids(infos[i]), inner.len() as int)
    }
}

/// The identifier suffixes that stacked decorators give, in item order.
pub open spec fn combinations(infos: Seq<ParametrizeView>) -> Seq<Seq<char>> {
    combinations_from(infos, 0)
}

/// The identifier that a row gets from its values, with an automatic
/// identifier for each value that has no text of its own.
pub fn format_param_set(param_names: &Vec<String>, values: &Vec<ParamValue>, set_index: usize) -> (s:
    String)
    ensures
        s@ == auto_id(texts(param_names@), row_view(values@), set_index as nat),
{
    let count: usize = if param_names.len() < values.len() {
        param_names.len()
    } else {
        values.len()
    };
    let ghost names = texts(param_names@);
    let ghost row = row_view(values@);
    let mut parts: Vec<String> = Vec::new();
    let mut c: usize = 0;
    while c < count
        invariant
            c <= count,
            count == smaller(param_names.len() as int, values.len() as int),
            names == texts(param_names@),
            row == row_view(values@),
            parts.len() == c,
            forall|k: int|
                0 <= k < c ==> (#[trigger] parts[k])@ == cell_id(row[k], names[k], set_index as nat),
        decreases count - c,
    {
        assert(row[c as int] == values@[c as int]@);
        assert(names[c as int] == param_names@[c as int]@);
        let part: String = match &values[c] {
            ParamValue::Simple(text) => text.clone(),
            ParamValue::AttributeAccess(text) => text.clone(),
            ParamValue::Complex => {
                let mut auto = param_names[c].clone();
                push_decimal(&mut auto, set_index as u64);
                auto
            },
        };
        parts.push(part);
        c += 1;
    }
    proof {
        reveal_strlit("-");
        assert("-"@ =~= seq!['-']);
        assert(texts(parts@) =~= row_cells(names, row, set_index as nat));
    }
    join_strings(&parts, "-")
}

/// The identifier of row `set_index` of a decorator: the explicit one where
/// there is one for that row, else the one made from `values`.
pub fn format_param_set_with_id(info: &ParametrizeInfo, values: &Vec<ParamValue>, set_index: usize) -> (s:
    String)
    ensures
        s@ == chosen_id(info@.ids, info@.names, row_view(values@), set_index as nat),
{
    match &info.explicit_ids {
        Some(ids) => {
            if set_index < ids.len() {
                assert(texts(ids@)[set_index as int] == ids@[set_index as int]@);
                return ids[set_index].clone();
            }
        },
        None => {},
    }
    format_param_set(&info.param_names, values, set_index)
}

/// Tells equal identifiers apart: the first occurrence stays as it is, the
/// second gets `_1`, the third `_2`, and so on.
pub fn deduplicate_ids(ids: Vec<String>) -> (unique: Vec<String>)
    ensures
        texts(unique@) == unique_ids(texts(ids@)),
{
    let ghost all = texts(ids@);
    let mut unique: Vec<String> = Vec::new();
    let mut i: usize = 0;
    while i < ids.len()
        invariant
            i <= ids.len(),
            all == texts(ids@),
            unique.len() == i,
            forall|k: int| 0 <= k < i ==> (#[trigger] unique[k])@ == unique_id(all, k),
        decreases ids.len() - i,
    {
        let mut seen: usize = 0;
        let mut j: usize = 0;
        while j < i
            invariant
                j <= i,
                i < ids.len(),
                all == texts(ids@),
                seen == occurrences(all, all[i as int], j as int),
                seen <= j,
            decreases i - j,
        {
            assert(all[j as int] == ids@[j as int]@);
            assert(all[i as int] == ids@[i as int]@);
            if ids[j] == ids[i] {
                seen += 1;
            }
            j += 1;
        }
        assert(all[i as int] == ids@[i as int]@);
        let mut id: String = ids[i].clone();
        if seen > 0 {
            id.append("_");
            push_decimal(&mut id, seen as u64);
            proof {
                reveal_strlit("_");
                assert("_"@ =~= seq!['_']);
            }
        }
        unique.push(id);
        i += 1;
    }
    assert(texts(unique@) =~= unique_ids(all));
    unique
}

/// The identifiers of the rows of one decorator, duplicates told apart.
pub fn row_ids(info: &ParametrizeInfo) -> (ids: Vec<String>)
    ensures
        texts(ids@) == info_ids(info@),
{
    let ghost view = info@;
    let mut raw: Vec<String> = Vec::new();
    let mut r: usize = 0;
    while r < info.values.len()
        invariant
            r <= info.values.len(),
            view == info@,
            raw.len() == r,
            forall|k: int|
                0 <= k < r ==> (#[trigger] raw[k])@ == chosen_id(
                    view.ids,
                    view.names,
                    view.rows[k],
                    k as nat,
                ),
        decreases info.values.len() - r,
    {
        assert(view.rows[r as int] == row_view(info.values@[r as int]@));
        raw.push(format_param_set_with_id(info, &info.values[r], r));
        r += 1;
    }
    assert(texts(raw@) =~= raw_ids(view));
    deduplicate_ids(raw)
}

/// The products of every identifier of `left` with every identifier of
/// `right`, `left` varying slowest.
fn cross_product(left: &Vec<String>, right: &Vec<String>) -> (out: Vec<String>)
    ensures
        texts(out@) == cross_upto(texts(left@), texts(right@), left.len() as int),
{
    let ghost lv = texts(left@);
    let ghost rv = texts(right@);
    let mut out: Vec<String> = Vec::new();
    let mut a: usize = 0;
    assert(texts(out@) =~= cross_upto(lv, rv, 0));
    while a < left.len()
        invariant
            a <= left.len(),
            lv == texts(left@),
            rv == texts(right@),
            texts(out@) == cross_upto(lv, rv, a as int),
        decreases left.len() - a,
    {
        let ghost done = texts(out@);
        let mut c: usize = 0;
        while c < right.len()
            invariant
                c <= right.len(),
                a < left.len(),
                lv == texts(left@),
                rv == texts(right@),
                texts(out@) == done + cross_row(lv[a as int], rv).take(c as int),
            decreases right.len() - c,
        {
            let ghost before = texts(out@);
            let mut id: String = left[a].clone();
            id.append("-");
            id.append(right[c].as_str());
            proof {
                reveal_strlit("-");
                assert("-"@ =~= seq!['-']);
                assert(lv[a as int] == left@[a as int]@);
                assert(rv[c as int] == right@[c as int]@);
            }
            out.push(id);
            assert(texts(out@) =~= before.push(id@));
            assert(cross_row(lv[a as int], rv).take(c + 1) =~= cross_row(lv[a as int], rv).take(
                c as int,
            ).push(id@));
            assert(texts(out@) =~= done + cross_row(lv[a as int], rv).take(c + 1));
            c += 1;
        }
        assert(cross_row(lv[a as int], rv).take(right.len() as int) =~= cross_row(lv[a as int], rv));
        a += 1;
    }
    out
}

/// The identifier suffixes of the items that stacked decorators make, in
/// item order: the Cartesian product of the decorators' rows, in which the
/// last decorator of the list gives the leftmost segment and varies slowest.
pub fn generate_param_combinations(parametrize_infos: &Vec<ParametrizeInfo>) -> (ids: Vec<String>)
    ensures
        texts(ids@) == combinations(infos_view(parametrize_infos@)),
{
    let ghost views = infos_view(parametrize_infos@);
    let count: usize = parametrize_infos.len();
    if count == 0 {
        let none: Vec<String> = Vec::new();
        assert(texts(none@) =~= combinations(views));
        return none;
    }
    let mut i: usize = count - 1;
    assert(views[i as int] == parametrize_infos@[i as int]@);
    let mut ids: Vec<String> = row_ids(&parametrize_infos[i]);
    while i > 0
        invariant
            i < count,
            count == parametrize_infos.len(),
            views == infos_view(parametrize_infos@),
            texts(ids@) == combinations_from(views, i as int),
        decreases i,
    {
        i -= 1;
        assert(views[i as int] == parametrize_infos@[i as int]@);
        let outer: Vec<String> = row_ids(&parametrize_infos[i]);
        ids = cross_product(&ids, &outer);
    }
    ids
}

} // verus!
