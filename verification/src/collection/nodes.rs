//! What collecting one node gives: the collectors of a directory's
//! entries, the items of a module, and the report of either.

use crate::collection::error::{CollectionError, CollectionOutcome};
use crate::collection::session::{
    item_nodeid, test_info_to_function, DirEntry, ListingFailure, PathKind, Session,
};
use crate::collection::types::{Collector, CollectorNode, Directory, Function, Module};
use crate::paths::relative_to;
use crate::python_discovery::discovery::TestInfo;
use crate::text::{
    lemma_lex_irreflexive, lemma_lex_total, lemma_lex_transitive, less_than, lex_lt, opt_text,
    to_chars,
};
use vstd::prelude::*;
use vstd::string::StringExecFns;

verus! {

/// A directory entry in the language of contracts.
pub struct EntryView {
    pub path: Seq<char>,
    pub kind: PathKind,
}

/// The first position at or after `i` whose path does not come before
/// `path`.
pub open spec fn entry_place(sorted: Seq<EntryView>, path: Seq<char>, i: int) -> int
    decreases sorted.len() - i,
{
    if i < 0 || i >= sorted.len() {
        sorted.len() as int
    } else if lex_lt(sorted[i].path, path) {
        entry_place(sorted, path, i + 1)
    } else {
        i
    }
}

/// The entries among the first `n` that become collectors, ordered by
/// path.
pub open spec fn collected_entries(session: Session, entries: Seq<DirEntry>, n: int) -> Seq<
    EntryView,
>
    decreases n,
{
    if n <= 0 {
        Seq::empty()
    } else {
        let before = collected_entries(session, entries, n - 1);
        let entry = entries[n - 1];
        if session.collects(entry.path@, entry.kind) {
            before.insert(
                entry_place(before, entry.path@, 0),
                EntryView { path: entry.path@, kind: entry.kind },
            )
        } else {
            before
        }
    }
}

/// Whether `node` is the collector of the entry below `root`.
pub open spec fn is_collector_of(node: CollectorNode, entry: EntryView, root: Seq<char>) -> bool {
    match node {
        CollectorNode::Directory(d) => entry.kind == PathKind::Directory && d.path@ == entry.path
            && d.nodeid@ == relative_to(entry.path, root),
        CollectorNode::Module(m) => entry.kind == PathKind::File && m.path@ == entry.path
            && m.nodeid@ == relative_to(entry.path, root),
        CollectorNode::Function(_) => false,
    }
}

/// Whether the nodes are the collectors of the entries, one for one.
pub open spec fn are_collectors_of(nodes: Seq<CollectorNode>, entries: Seq<EntryView>, root: Seq<char>) -> bool {
    &&& nodes.len() == entries.len()
    &&& forall|i: int| 0 <= i < nodes.len() ==> is_collector_of(#[trigger] nodes[i], entries[i], root)
}

/// The report of collecting one node.
#[derive(Debug, Clone)]
pub struct CollectReport {
    pub nodeid: String,
    pub outcome: CollectionOutcome,
    /// The error as text, where collecting failed.
    pub longrepr: Option<String>,
    /// The error, where collecting failed.
    pub error_type: Option<CollectionError>,
    /// The children, where collecting passed.
    pub result: Vec<CollectorNode>,
}

impl CollectReport {
    /// A report with the given fields.
    pub fn new(
        nodeid: String,
        outcome: CollectionOutcome,
        longrepr: Option<String>,
        error_type: Option<CollectionError>,
        result: Vec<CollectorNode>,
    ) -> (report: CollectReport)
        ensures
            report.nodeid == nodeid,
            report.outcome == outcome,
            report.longrepr == longrepr,
            report.error_type == error_type,
            report.result == result,
    {
        CollectReport { nodeid, outcome, longrepr, error_type, result }
    }
}

impl Session {
    /// The collectors of the entries of a directory, ordered by path, so
    /// that the order does not depend on the order of the listing. A
    /// directory that may not be read counts as empty; any other failure
    /// to list it is the directory's error.
    pub fn collect_directory(&self, listing: &Result<Vec<DirEntry>, ListingFailure>) -> (r: Result<
        Vec<CollectorNode>,
        CollectionError,
    >)
        ensures
            match *listing {
                Ok(entries) => r is Ok && are_collectors_of(
                    r->Ok_0@,
                    collected_entries(*self, entries@, entries@.len() as int),
                    self.rootpath@,
                ),
                Err(ListingFailure::PermissionDenied) => r is Ok && r->Ok_0@.len() == 0,
                Err(ListingFailure::Other(reason)) => r == Err::<
                    Vec<CollectorNode>,
                    CollectionError,
                >(CollectionError::IoError(reason)),
            },
    {
        let entries = match listing {
            Ok(entries) => entries,
            Err(ListingFailure::PermissionDenied) => {
                return Ok(Vec::new());
            },
            Err(ListingFailure::Other(reason)) => {
                return Err(CollectionError::IoError(reason.clone()));
            },
        };
        let mut nodes: Vec<CollectorNode> = Vec::new();
        let mut i: usize = 0;
        while i < entries.len()
            invariant
                i <= entries.len(),
                are_collectors_of(
                    nodes@,
                    collected_entries(*self, entries@, i as int),
                    self.rootpath@,
                ),
            decreases entries.len() - i,
        {
            let ghost sorted = collected_entries(*self, entries@, i as int);
            let entry = &entries[i];
            match self.collect_path(entry.path.as_str(), entry.kind) {
                None => {},
                Some(node) => {
                    let path = to_chars(entry.path.as_str());
                    let mut p: usize = 0;
                    while p < nodes.len() && comes_before(&nodes[p], &path)
                        invariant
                            p <= nodes.len(),
                            path@ == entry.path@,
                            are_collectors_of(nodes@, sorted, self.rootpath@),
                            entry_place(sorted, path@, 0) == entry_place(sorted, path@, p as int),
                        decreases nodes.len() - p,
                    {
                        assert(is_collector_of(nodes@[p as int], sorted[p as int], self.rootpath@));
                        p += 1;
                    }
                    proof {
                        if p < nodes.len() {
                            assert(is_collector_of(
                                nodes@[p as int],
                                sorted[p as int],
                                self.rootpath@,
                            ));
                        }
                    }
                    let ghost view = EntryView { path: entry.path@, kind: entry.kind };
                    assert(is_collector_of(node, view, self.rootpath@));
                    let ghost prev = nodes@;
                    nodes.insert(p, node);
                    assert forall|k: int| 0 <= k < nodes@.len() implies is_collector_of(
                        #[trigger] nodes@[k],
                        sorted.insert(p as int, view)[k],
                        self.rootpath@,
                    ) by {
                        if k < p {
                            assert(is_collector_of(prev[k], sorted[k], self.rootpath@));
                        } else if k > p {
                            assert(is_collector_of(prev[k - 1], sorted[k - 1], self.rootpath@));
                        }
                    }
                },
            }
            i += 1;
        }
        Ok(nodes)
    }

    /// The collectors of the items that discovery found in a module, or
    /// the module's error where discovery failed.
    pub fn collect_module(&self, module: &Module, discovered: Result<Vec<TestInfo>, CollectionError>) -> (r:
        Result<Vec<CollectorNode>, CollectionError>)
        ensures
            match discovered {
                Err(e) => r == Err::<Vec<CollectorNode>, CollectionError>(e),
                Ok(tests) => {
                    &&& r is Ok
                    &&& r->Ok_0@.len() == tests@.len()
                    &&& forall|i: int|
                        0 <= i < tests@.len() ==> {
                            &&& (#[trigger] r->Ok_0@[i]) is Function
                            &&& r->Ok_0@[i]->Function_0.nodeid@ == item_nodeid(
                                module.nodeid@,
                                tests@[i]@,
                            )
                            &&& r->Ok_0@[i]->Function_0.name@ == tests@[i]@.name
                            &&& r->Ok_0@[i]->Function_0.location.path@ == module.path@
                            &&& r->Ok_0@[i]->Function_0.location.line == Some(tests@[i].line)
                            &&& r->Ok_0@[i]->Function_0.location.name@ == tests@[i]@.name
                            &&& r->Ok_0@[i]->Function_0.is_parametrized
                                == tests@[i].is_parametrized
                            &&& r->Ok_0@[i]->Function_0.has_uncertain_params
                                == tests@[i].has_uncertain_params
                            &&& opt_text(r->Ok_0@[i]->Function_0.xdist_group)
                                == tests@[i]@.xdist_group
                        }
                },
            },
    {
        let tests = match discovered {
            Ok(tests) => tests,
            Err(e) => {
                return Err(e);
            },
        };
        let mut nodes: Vec<CollectorNode> = Vec::new();
        let mut i: usize = 0;
        while i < tests.len()
            invariant
                i <= tests.len(),
                nodes.len() == i,
                forall|k: int|
                    0 <= k < i ==> {
                        &&& (#[trigger] nodes@[k]) is Function
                        &&& nodes@[k]->Function_0.nodeid@ == item_nodeid(module.nodeid@, tests@[k]@)
                        &&& nodes@[k]->Function_0.name@ == tests@[k]@.name
                        &&& nodes@[k]->Function_0.location.path@ == module.path@
                        &&& nodes@[k]->Function_0.location.line == Some(tests@[k].line)
                        &&& nodes@[k]->Function_0.location.name@ == tests@[k]@.name
                        &&& nodes@[k]->Function_0.is_parametrized == tests@[k].is_parametrized
                        &&& nodes@[k]->Function_0.has_uncertain_params
                            == tests@[k].has_uncertain_params
                        &&& opt_text(nodes@[k]->Function_0.xdist_group) == tests@[k]@.xdist_group
                    },
            decreases tests.len() - i,
        {
            let function = test_info_to_function(
                &tests[i],
                module.path.as_str(),
                module.nodeid.as_str(),
            );
            nodes.push(CollectorNode::Function(function));
            i += 1;
        }
        Ok(nodes)
    }
}

/// Whether the path of the node comes before `path`.
fn comes_before(node: &CollectorNode, path: &Vec<char>) -> (r: bool)
    ensures
        r == lex_lt(node.path_view(), path@),
{
    let here = to_chars(node.path());
    less_than(&here, path)
}

/// The report of collecting `node`: passed with the children, or failed
/// with the error and its text.
pub fn collect_one_node(node: &CollectorNode, collected: Result<Vec<CollectorNode>, CollectionError>) -> (report:
    CollectReport)
    ensures
        report.nodeid@ == node.nodeid_view(),
        match collected {
            Ok(children) => {
                &&& report.outcome == CollectionOutcome::Passed
                &&& report.longrepr is None
                &&& report.error_type is None
                &&& report.result == children
            },
            Err(e) => {
                &&& report.outcome == CollectionOutcome::Failed
                &&& report.longrepr is Some
                &&& report.longrepr->Some_0@ == e.message()
                &&& report.error_type == Some(e)
                &&& report.result@.len() == 0
            },
        },
{
    let nodeid = String::from_str(node.nodeid());
    match collected {
        Ok(children) => CollectReport::new(nodeid, CollectionOutcome::Passed, None, None, children),
        Err(e) => {
            let text = e.to_string();
            CollectReport::new(nodeid, CollectionOutcome::Failed, Some(text), Some(e), Vec::new())
        },
    }
}

/// The entries of a listing in the language of contracts.
pub open spec fn entry_views(entries: Seq<DirEntry>) -> Seq<EntryView> {
    entries.map_values(|e: DirEntry| EntryView { path: e.path@, kind: e.kind })
}

/// Every entry comes before every later one by its path.
pub open spec fn sorted_by_path(entries: Seq<EntryView>) -> bool {
    forall|a: int, b: int|
        0 <= a < b < entries.len() ==> lex_lt((#[trigger] entries[a]).path, (
        #[trigger] entries[b]).path)
}

/// No two entries of the listing have the same path.
pub open spec fn distinct_paths(entries: Seq<DirEntry>) -> bool {
    forall|i: int, j: int|
        0 <= i < j < entries.len() ==> (#[trigger] entries[i]).path@ != (
        #[trigger] entries[j]).path@
}

/// Whether the entry is one of the first `n` of the listing and becomes a
/// collector.
pub open spec fn is_collected(session: Session, entries: Seq<DirEntry>, n: int, e: EntryView) -> bool {
    exists|i: int|
        0 <= i < n && #[trigger] entry_views(entries)[i] == e && session.collects(e.path, e.kind)
}

/// The position in the listing of an entry that is collected.
pub proof fn lemma_collected_position(session: Session, entries: Seq<DirEntry>, n: int, e: EntryView) -> (i:
    int)
    requires
        is_collected(session, entries, n, e),
    ensures
        0 <= i < n,
        entry_views(entries)[i] == e,
        session.collects(e.path, e.kind),
{
    choose|i: int|
        0 <= i < n && #[trigger] entry_views(entries)[i] == e && session.collects(e.path, e.kind)
}

/// Where the scan for an entry's place stops: everything before the place
/// comes before the path, and what stands at the place does not.
pub proof fn lemma_entry_place(sorted: Seq<EntryView>, path: Seq<char>, i: int)
    requires
        0 <= i <= sorted.len(),
    ensures
        i <= entry_place(sorted, path, i) <= sorted.len(),
        forall|m: int|
            i <= m < entry_place(sorted, path, i) ==> lex_lt((#[trigger] sorted[m]).path, path),
        entry_place(sorted, path, i) < sorted.len() ==> !lex_lt(
            sorted[entry_place(sorted, path, i)].path,
            path,
        ),
    decreases sorted.len() - i,
{
    if i < sorted.len() && lex_lt(sorted[i].path, path) {
        lemma_entry_place(sorted, path, i + 1);
    }
}

/// The collectors of a listing without equal paths are ordered by path, and
/// they are exactly the entries of the listing that become collectors.
pub proof fn lemma_collected_entries(session: Session, entries: Seq<DirEntry>, n: int)
    requires
        distinct_paths(entries),
        0 <= n <= entries.len(),
    ensures
        sorted_by_path(collected_entries(session, entries, n)),
        forall|e: EntryView|
            collected_entries(session, entries, n).contains(e) <==> is_collected(
                session,
                entries,
                n,
                e,
            ),
    decreases n,
{
    let views = entry_views(entries);
    if n > 0 {
        lemma_collected_entries(session, entries, n - 1);
        let before = collected_entries(session, entries, n - 1);
        let now = collected_entries(session, entries, n);
        let entry = entries[n - 1];
        let view = EntryView { path: entry.path@, kind: entry.kind };
        assert(views[n - 1] == view);
        if session.collects(entry.path@, entry.kind) {
            let p = entry_place(before, view.path, 0);
            lemma_entry_place(before, view.path, 0);
            assert(now == before.insert(p, view));
            // nothing before has the path of the new entry
            assert forall|m: int| 0 <= m < before.len() implies (#[trigger] before[m]).path
                != view.path by {
                assert(before.contains(before[m]));
                assert(is_collected(session, entries, n - 1, before[m]));
                let i = lemma_collected_position(session, entries, n - 1, before[m]);
                assert(views[i].path == entries[i].path@);
                assert(entries[i].path@ != entries[n - 1].path@);
            }
            assert forall|m: int| p <= m < before.len() implies lex_lt(
                view.path,
                (#[trigger] before[m]).path,
            ) by {
                lemma_lex_total(before[p].path, view.path);
                if m > p {
                    lemma_lex_transitive(view.path, before[p].path, before[m].path);
                }
            }
            assert forall|a: int, b: int| 0 <= a < b < now.len() implies lex_lt(
                (#[trigger] now[a]).path,
                (#[trigger] now[b]).path,
            ) by {
                if b < p {
                    assert(now[a] == before[a] && now[b] == before[b]);
                } else if b == p {
                    assert(now[a] == before[a]);
                } else if a < p {
                    assert(now[a] == before[a] && now[b] == before[b - 1]);
                    lemma_lex_transitive(before[a].path, view.path, before[b - 1].path);
                } else if a == p {
                    assert(now[b] == before[b - 1]);
                } else {
                    assert(now[a] == before[a - 1] && now[b] == before[b - 1]);
                }
            }
            assert forall|e: EntryView| now.contains(e) <==> is_collected(
                session,
                entries,
                n,
                e,
            ) by {
                if now.contains(e) {
                    let m = choose|m: int| 0 <= m < now.len() && now[m] == e;
                    if m == p {
                        assert(views[n - 1] == e);
                    } else {
                        if m < p {
                            assert(before[m] == e);
                        } else {
                            assert(before[m - 1] == e);
                        }
                        assert(before.contains(e));
                        assert(is_collected(session, entries, n - 1, e));
                        let i = lemma_collected_position(session, entries, n - 1, e);
                        assert(views[i] == e);
                    }
                }
                if is_collected(session, entries, n, e) {
                    let i = lemma_collected_position(session, entries, n, e);
                    if i == n - 1 {
                        assert(now[p] == e);
                    } else {
                        assert(is_collected(session, entries, n - 1, e));
                        assert(before.contains(e));
                        let m = choose|m: int| 0 <= m < before.len() && before[m] == e;
                        if m < p {
                            assert(now[m] == e);
                        } else {
                            assert(now[m + 1] == e);
                        }
                    }
                }
            }
        } else {
            assert forall|e: EntryView| now.contains(e) <==> is_collected(
                session,
                entries,
                n,
                e,
            ) by {
                if now.contains(e) {
                    assert(is_collected(session, entries, n - 1, e));
                    let i = lemma_collected_position(session, entries, n - 1, e);
                    assert(views[i] == e);
                }
                if is_collected(session, entries, n, e) {
                    let i = lemma_collected_position(session, entries, n, e);
                    assert(i != n - 1);
                    assert(views[i] == e);
                    assert(is_collected(session, entries, n - 1, e));
                }
            }
        }
    } else {
        assert forall|e: EntryView| !collected_entries(session, entries, 0).contains(e) by {}
    }
}

/// Two sequences that are ordered by path and hold the same entries are the
/// same sequence.
pub proof fn lemma_order_is_unique(s: Seq<EntryView>, t: Seq<EntryView>)
    requires
        sorted_by_path(s),
        sorted_by_path(t),
        forall|e: EntryView| s.contains(e) <==> t.contains(e),
    ensures
        s == t,
    decreases s.len(),
{
    if s.len() == 0 {
        if t.len() > 0 {
            assert(t.contains(t[0]));
            assert(s.contains(t[0]));
        }
        assert(s =~= t);
    } else {
        let top = s.last();
        assert(s.contains(top));
        assert(t.contains(top));
        let j = choose|j: int| 0 <= j < t.len() && t[j] == top;
        let other = t.last();
        assert(t.contains(other));
        assert(s.contains(other));
        let i = choose|i: int| 0 <= i < s.len() && s[i] == other;
        // the last of each is the greatest of both
        if j < t.len() - 1 {
            assert(lex_lt(t[j].path, other.path));
            if i < s.len() - 1 {
                assert(lex_lt(s[i].path, top.path));
                lemma_lex_total(top.path, other.path);
            } else {
                lemma_lex_irreflexive(top.path);
            }
        }
        assert(j == t.len() - 1);
        let s1 = s.drop_last();
        let t1 = t.drop_last();
        assert forall|e: EntryView| s1.contains(e) <==> t1.contains(e) by {
            if s1.contains(e) {
                let m = choose|m: int| 0 <= m < s1.len() && s1[m] == e;
                assert(s[m] == e);
                assert(lex_lt(s[m].path, top.path));
                assert(s.contains(e));
                let k = choose|k: int| 0 <= k < t.len() && t[k] == e;
                if k == t.len() - 1 {
                    lemma_lex_irreflexive(top.path);
                }
                assert(t1[k] == e);
            }
            if t1.contains(e) {
                let m = choose|m: int| 0 <= m < t1.len() && t1[m] == e;
                assert(t[m] == e);
                assert(lex_lt(t[m].path, top.path));
                assert(t.contains(e));
                let k = choose|k: int| 0 <= k < s.len() && s[k] == e;
                if k == s.len() - 1 {
                    lemma_lex_irreflexive(top.path);
                }
                assert(s1[k] == e);
            }
        }
        assert(sorted_by_path(s1)) by {
            assert forall|a: int, b: int| 0 <= a < b < s1.len() implies lex_lt(
                (#[trigger] s1[a]).path,
                (#[trigger] s1[b]).path,
            ) by {
                assert(s1[a] == s[a] && s1[b] == s[b]);
            }
        }
        assert(sorted_by_path(t1)) by {
            assert forall|a: int, b: int| 0 <= a < b < t1.len() implies lex_lt(
                (#[trigger] t1[a]).path,
                (#[trigger] t1[b]).path,
            ) by {
                assert(t1[a] == t[a] && t1[b] == t[b]);
            }
        }
        lemma_order_is_unique(s1, t1);
        assert(s =~= s1.push(top));
        assert(t =~= t1.push(top));
    }
}

/// The collectors of a directory do not depend on the order in which the
/// directory was listed: two listings that hold the same entries, none of
/// them twice, give the same collectors in the same order.
pub proof fn law_listing_order_does_not_matter(session: Session, first: Seq<DirEntry>, second: Seq<DirEntry>)
    requires
        distinct_paths(first),
        distinct_paths(second),
        forall|e: EntryView| entry_views(first).contains(e) <==> entry_views(second).contains(e),
    ensures
        collected_entries(session, first, first.len() as int) == collected_entries(
            session,
            second,
            second.len() as int,
        ),
{
    let a = collected_entries(session, first, first.len() as int);
    let b = collected_entries(session, second, second.len() as int);
    lemma_collected_entries(session, first, first.len() as int);
    lemma_collected_entries(session, second, second.len() as int);
    assert forall|e: EntryView| a.contains(e) <==> b.contains(e) by {
        if is_collected(session, first, first.len() as int, e) {
            let i = lemma_collected_position(session, first, first.len() as int, e);
            assert(entry_views(first)[i] == e);
            assert(entry_views(first).contains(e));
            let k = choose|k: int| 0 <= k < entry_views(second).len() && entry_views(second)[k] == e;
            assert(entry_views(second)[k] == e);
            assert(is_collected(session, second, second.len() as int, e));
        }
        if is_collected(session, second, second.len() as int, e) {
            let i = lemma_collected_position(session, second, second.len() as int, e);
            assert(entry_views(second)[i] == e);
            assert(entry_views(second).contains(e));
            let k = choose|k: int| 0 <= k < entry_views(first).len() && entry_views(first)[k] == e;
            assert(entry_views(first)[k] == e);
            assert(is_collected(session, first, first.len() as int, e));
        }
    }
    lemma_order_is_unique(a, b);
}

} // verus!
