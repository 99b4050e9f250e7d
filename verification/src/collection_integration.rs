//! From a collected tree to the ordered sequence of test items, the errors
//! met on the way, the files whose items are uncertain, and the report.

use crate::collection::error::{CollectionError, CollectionWarning};
use crate::collection::types::{Collector, CollectorNode, Function};
use crate::partition::{lemma_with_key, rank_from, strictly_sorted, with_key};
use crate::scheduler::{extract_file, file_part};
use crate::text::{ends_with, find_char, has_suffix, less_than, lex_lt, texts, to_chars};
use vstd::prelude::*;
use vstd::string::StringExecFns;

verus! {

/// A node of the collection tree with what collecting it gave.
#[derive(Debug)]
pub enum Collected {
    /// A test item.
    Item(Function),
    /// A directory or module that was collected, with its children in
    /// collection order.
    Passed { node: CollectorNode, children: Vec<Collected> },
    /// A directory or module that could not be collected.
    Failed { node: CollectorNode, error: CollectionError },
}

/// The errors and warnings of a collection pass, and the files whose items
/// may differ from what the host would collect.
#[derive(Debug, Clone)]
pub struct CollectionErrors {
    /// The errors with the node identifier each belongs to, in collection
    /// order.
    pub errors: Vec<(String, CollectionError)>,
    pub warnings: Vec<CollectionWarning>,
    /// The uncertain files, ascending, each once.
    pub uncertain_files: Vec<String>,
}

/// How a collection pass treats parametrized tests.
#[derive(Debug, Clone, Copy)]
pub struct CollectionOptions {
    /// Count every file with parametrized tests as uncertain.
    pub all_parametrized_uncertain: bool,
}

impl Default for CollectionOptions {
    fn default() -> (options: CollectionOptions)
        ensures
            !options.all_parametrized_uncertain,
    {
        CollectionOptions { all_parametrized_uncertain: false }
    }
}

/// What a tree yields.
pub struct Harvest {
    /// The items, in collection order.
    pub items: Seq<Function>,
    /// The errors with their node identifiers, in collection order.
    pub failures: Seq<(Seq<char>, CollectionError)>,
    /// The files noted as uncertain, in the order in which they were noted.
    pub uncertain: Seq<Seq<char>>,
    /// The number of modules met.
    pub modules: nat,
}

impl Harvest {
    /// Nothing.
    pub open spec fn none() -> Harvest {
        Harvest { items: Seq::empty(), failures: Seq::empty(), uncertain: Seq::empty(), modules: 0 }
    }

    /// This harvest followed by another.
    pub open spec fn followed_by(self, other: Harvest) -> Harvest {
        Harvest {
            items: self.items + other.items,
            failures: self.failures + other.failures,
            uncertain: self.uncertain + other.uncertain,
            modules: self.modules + other.modules,
        }
    }
}

/// Whether the item makes its file uncertain: it is parametrized, and
/// either every parametrized file counts, or the item was not expanded
/// into rows, or its identifier may differ from the host's.
pub open spec fn is_uncertain_item(item: Function, all_parametrized: bool) -> bool {
    item.is_parametrized && (all_parametrized || !item.nodeid@.contains('[')
        || item.has_uncertain_params)
}

/// What a single item yields.
pub open spec fn item_harvest(item: Function, all_parametrized: bool) -> Harvest {
    Harvest {
        items: seq![item],
        failures: Seq::empty(),
        uncertain: if is_uncertain_item(item, all_parametrized) {
            seq![file_part(item.nodeid@)]
        } else {
            Seq::empty()
        },
        modules: 0,
    }
}

/// One where the node is a module, else none.
pub open spec fn module_count(node: CollectorNode) -> nat {
    if node is Module {
        1
    } else {
        0
    }
}

/// Whether a node that could not be collected makes its file uncertain:
/// every module does, whatever its name, and any other node whose file
/// portion names a Python file.
pub open spec fn fails_as_file(node: CollectorNode) -> bool {
    node is Module || has_suffix(file_part(node.nodeid_view()), ".py"@)
}

/// What a node yields that could not be collected: its error, and its file
/// as uncertain where it stands for a file.
pub open spec fn failure_harvest(node: CollectorNode, error: CollectionError) -> Harvest {
    Harvest {
        items: Seq::empty(),
        failures: seq![(node.nodeid_view(), error)],
        uncertain: if fails_as_file(node) {
            seq![file_part(node.nodeid_view())]
        } else {
            Seq::empty()
        },
        modules: module_count(node),
    }
}

/// What a tree yields, item by item in collection order.
pub open spec fn harvest(tree: Collected, all_parametrized: bool) -> Harvest
    decreases tree, 0int,
{
    match tree {
        Collected::Item(item) => item_harvest(item, all_parametrized),
        Collected::Passed { node, children } => Harvest {
            modules: module_count(node) + harvest_first(
                children@,
                children@.len() as int,
                all_parametrized,
            ).modules,
            ..harvest_first(children@, children@.len() as int, all_parametrized)
        },
        Collected::Failed { node, error } => failure_harvest(node, error),
    }
}

/// What the first `n` trees yield, one after another.
pub open spec fn harvest_first(trees: Seq<Collected>, n: int, all_parametrized: bool) -> Harvest
    decreases trees, n,
{
    if n <= 0 || n > trees.len() {
        Harvest::none()
    } else {
        harvest_first(trees, n - 1, all_parametrized).followed_by(harvest(trees[n - 1], all_parametrized))
    }
}

/// The node identifiers of the items.
pub open spec fn nodeids(items: Seq<Function>) -> Seq<Seq<char>> {
    items.map_values(|f: Function| f.nodeid@)
}

/// The errors in the language of contracts.
pub open spec fn errors_view(errors: Seq<(String, CollectionError)>) -> Seq<
    (Seq<char>, CollectionError),
> {
    errors.map_values(|e: (String, CollectionError)| (e.0@, e.1))
}

/// The sorted texts with the first `n` of `more` put in, each where the
/// order wants it and none twice.
pub open spec fn with_keys(sorted: Seq<Seq<char>>, more: Seq<Seq<char>>, n: int) -> Seq<Seq<char>>
    decreases n,
{
    if n <= 0 {
        sorted
    } else {
        with_key(with_keys(sorted, more, n - 1), more[n - 1])
    }
}

/// What is gathered while a tree is walked.
pub struct Gathered {
    pub functions: Vec<Function>,
    pub errors: Vec<(String, CollectionError)>,
    pub uncertain: Vec<String>,
    pub modules: usize,
}

impl Gathered {
    /// What was gathered, as a harvest.
    pub open spec fn as_harvest(self) -> Harvest {
        Harvest {
            items: self.functions@,
            failures: errors_view(self.errors@),
            uncertain: texts(self.uncertain@),
            modules: self.modules as nat,
        }
    }

    /// Nothing gathered yet.
    pub fn new() -> (gathered: Gathered)
        ensures
            gathered.as_harvest() == Harvest::none(),
    {
        let gathered = Gathered {
            functions: Vec::new(),
            errors: Vec::new(),
            uncertain: Vec::new(),
            modules: 0,
        };
        assert(gathered.as_harvest().failures =~= Seq::empty());
        assert(gathered.as_harvest().uncertain =~= Seq::empty());
        gathered
    }
}

/// Whether the text holds the character.
fn has_char(s: &str, c: char) -> (r: bool)
    ensures
        r == s@.contains(c),
{
    let chars = to_chars(s);
    let at: usize = find_char(&chars, c, 0);
    if at < chars.len() {
        assert(chars@[at as int] == c);
        true
    } else {
        assert forall|k: int| 0 <= k < s@.len() implies s@[k] != c by {}
        false
    }
}

/// Walks a tree and adds what it yields to what was gathered. The count of
/// modules saturates at the largest number that the machine can hold.
pub fn gather(tree: &Collected, all_parametrized: bool, gathered: &mut Gathered)
    ensures
        final(gathered).functions@ == old(gathered).functions@ + harvest(
            *tree,
            all_parametrized,
        ).items,
        errors_view(final(gathered).errors@) == errors_view(old(gathered).errors@) + harvest(
            *tree,
            all_parametrized,
        ).failures,
        texts(final(gathered).uncertain@) == texts(old(gathered).uncertain@) + harvest(
            *tree,
            all_parametrized,
        ).uncertain,
        final(gathered).modules == saturating(
            old(gathered).modules as nat + harvest(*tree, all_parametrized).modules,
        ),
    decreases tree,
{
    match tree {
        Collected::Item(item) => {
            gathered.functions.push(item.duplicate());
            if item.is_parametrized && (all_parametrized || !has_char(item.nodeid.as_str(), '[')
                || item.has_uncertain_params) {
                let ghost before = texts(gathered.uncertain@);
                gathered.uncertain.push(extract_file(item.nodeid.as_str()));
                assert(texts(gathered.uncertain@) =~= before + seq![file_part(item.nodeid@)]);
            } else {
                assert(texts(gathered.uncertain@) =~= texts(old(gathered).uncertain@)
                    + Seq::<Seq<char>>::empty());
            }
            assert(gathered.functions@ =~= old(gathered).functions@ + seq![*item]);
            assert(errors_view(gathered.errors@) =~= errors_view(old(gathered).errors@)
                + Seq::<(Seq<char>, CollectionError)>::empty());
        },
        Collected::Failed { node, error } => {
            let file = extract_file(node.nodeid());
            let file_chars = to_chars(file.as_str());
            let suffix = to_chars(".py");
            let is_module: bool = match node {
                CollectorNode::Module(_) => true,
                _ => false,
            };
            if is_module || ends_with(&file_chars, &suffix) {
                let ghost before = texts(gathered.uncertain@);
                gathered.uncertain.push(file);
                assert(texts(gathered.uncertain@) =~= before + seq![file_part(node.nodeid_view())]);
            } else {
                assert(texts(gathered.uncertain@) =~= texts(old(gathered).uncertain@)
                    + Seq::<Seq<char>>::empty());
            }
            let ghost before = errors_view(gathered.errors@);
            let nodeid = String::from_str(node.nodeid());
            gathered.errors.push((nodeid, error.duplicate()));
            assert(errors_view(gathered.errors@) =~= before + seq![(node.nodeid_view(), *error)]);
            assert(gathered.functions@ =~= old(gathered).functions@ + Seq::<Function>::empty());
            gathered.modules = add_module(gathered.modules, node);
        },
        Collected::Passed { node, children } => {
            let ghost start = *gathered;
            let mut i: usize = 0;
            assert(gathered.functions@ =~= start.functions@ + Seq::<Function>::empty());
            assert(errors_view(gathered.errors@) =~= errors_view(start.errors@) + Seq::<
                (Seq<char>, CollectionError),
            >::empty());
            assert(texts(gathered.uncertain@) =~= texts(start.uncertain@)
                + Seq::<Seq<char>>::empty());
            while i < children.len()
                invariant
                    i <= children.len(),
                    decreases_to!(tree => children),
                    gathered.functions@ == start.functions@ + harvest_first(
                        children@,
                        i as int,
                        all_parametrized,
                    ).items,
                    errors_view(gathered.errors@) == errors_view(start.errors@) + harvest_first(
                        children@,
                        i as int,
                        all_parametrized,
                    ).failures,
                    texts(gathered.uncertain@) == texts(start.uncertain@) + harvest_first(
                        children@,
                        i as int,
                        all_parametrized,
                    ).uncertain,
                    gathered.modules == saturating(
                        start.modules as nat + harvest_first(
                            children@,
                            i as int,
                            all_parametrized,
                        ).modules,
                    ),
                decreases children.len() - i,
            {
                assert(decreases_to!(children => children[i as int]));
                let ghost before = *gathered;
                let ghost so_far = harvest_first(children@, i as int, all_parametrized);
                let ghost next = harvest(children@[i as int], all_parametrized);
                gather(&children[i], all_parametrized, gathered);
                assert(gathered.functions@ =~= start.functions@ + (so_far.items + next.items));
                assert(errors_view(gathered.errors@) =~= errors_view(start.errors@) + (
                so_far.failures + next.failures));
                assert(texts(gathered.uncertain@) =~= texts(start.uncertain@) + (so_far.uncertain
                    + next.uncertain));
                i += 1;
            }
            gathered.modules = add_module(gathered.modules, node);
        },
    }
}

/// A count that stops at the largest number that the machine can hold.
pub open spec fn saturating(n: nat) -> usize {
    if n > usize::MAX {
        usize::MAX
    } else {
        n as usize
    }
}

/// The count of modules with `node` counted in.
fn add_module(count: usize, node: &CollectorNode) -> (r: usize)
    ensures
        r == saturating(count as nat + module_count(*node)),
{
    match node {
        CollectorNode::Module(_) => if count < usize::MAX {
            count + 1
        } else {
            count
        },
        _ => count,
    }
}

/// Puts `key` into the sorted texts, where the order wants it, unless it
/// is there already.
pub fn insert_sorted(sorted: &mut Vec<String>, key: String)
    ensures
        texts(final(sorted)@) == with_key(texts(old(sorted)@), key@),
{
    let ghost views = texts(sorted@);
    let chars = to_chars(key.as_str());
    let mut p: usize = 0;
    while p < sorted.len() && text_before(&sorted[p], &chars)
        invariant
            p <= sorted.len(),
            views == texts(sorted@),
            sorted@ == old(sorted)@,
            rank_from(views, chars@, 0) == rank_from(views, chars@, p as int),
        decreases sorted.len() - p,
    {
        assert(views[p as int] == sorted@[p as int]@);
        p += 1;
    }
    proof {
        if p < sorted.len() {
            assert(views[p as int] == sorted@[p as int]@);
        }
    }
    if p < sorted.len() && sorted[p] == key {
        return ;
    }
    sorted.insert(p, key);
    assert(texts(sorted@) =~= views.insert(p as int, key@));
}

/// Whether the text comes before `other`.
fn text_before(text: &String, other: &Vec<char>) -> (r: bool)
    ensures
        r == lex_lt(text@, other@),
{
    let chars = to_chars(text.as_str());
    less_than(&chars, other)
}

/// Walks a tree and adds the node identifiers of its items, its errors and
/// its uncertain files to those found so far.
pub fn collect_items_recursive(
    collector: &Collected,
    test_nodes: &mut Vec<String>,
    collection_errors: &mut CollectionErrors,
    all_parametrized_uncertain: bool,
    files_with_parametrized: &mut Vec<String>,
)
    ensures
        texts(final(test_nodes)@) == texts(old(test_nodes)@) + nodeids(
            harvest(*collector, all_parametrized_uncertain).items,
        ),
        errors_view(final(collection_errors).errors@) == errors_view(old(collection_errors).errors@)
            + harvest(*collector, all_parametrized_uncertain).failures,
        final(collection_errors).warnings == old(collection_errors).warnings,
        final(collection_errors).uncertain_files == old(collection_errors).uncertain_files,
        texts(final(files_with_parametrized)@) == with_keys(
            texts(old(files_with_parametrized)@),
            harvest(*collector, all_parametrized_uncertain).uncertain,
            harvest(*collector, all_parametrized_uncertain).uncertain.len() as int,
        ),
{
    let mut gathered = Gathered::new();
    gather(collector, all_parametrized_uncertain, &mut gathered);
    let ghost yielded = harvest(*collector, all_parametrized_uncertain);
    assert(gathered.functions@ =~= yielded.items);
    assert(errors_view(gathered.errors@) =~= yielded.failures);
    assert(texts(gathered.uncertain@) =~= yielded.uncertain);
    let Gathered { functions, errors, uncertain, modules } = gathered;
    let mut i: usize = 0;
    assert(texts(test_nodes@) =~= texts(old(test_nodes)@) + nodeids(functions@).take(0));
    while i < functions.len()
        invariant
            i <= functions.len(),
            texts(test_nodes@) == texts(old(test_nodes)@) + nodeids(functions@).take(i as int),
        decreases functions.len() - i,
    {
        let ghost before = texts(test_nodes@);
        test_nodes.push(functions[i].nodeid.clone());
        assert(texts(test_nodes@) =~= before.push(functions@[i as int].nodeid@));
        assert(nodeids(functions@).take(i + 1) =~= nodeids(functions@).take(i as int).push(
            functions@[i as int].nodeid@,
        ));
        i += 1;
    }
    assert(nodeids(functions@).take(functions.len() as int) =~= nodeids(functions@));
    let ghost start = errors_view(collection_errors.errors@);
    let ghost added = errors_view(errors@);
    let mut errors = errors;
    collection_errors.errors.append(&mut errors);
    assert(errors_view(collection_errors.errors@) =~= start + added);
    let mut k: usize = 0;
    while k < uncertain.len()
        invariant
            k <= uncertain.len(),
            texts(files_with_parametrized@) == with_keys(
                texts(old(files_with_parametrized)@),
                texts(uncertain@),
                k as int,
            ),
        decreases uncertain.len() - k,
    {
        assert(texts(uncertain@)[k as int] == uncertain@[k as int]@);
        insert_sorted(files_with_parametrized, uncertain[k].clone());
        k += 1;
    }
}

/// What the first `n` trees yield to a pass that starts with nothing: the
/// node identifiers, the errors, and the uncertain files, ascending and
/// each once.
pub open spec fn pass_files(trees: Seq<Collected>, n: int, all_parametrized: bool) -> Seq<Seq<char>>
    decreases n,
{
    if n <= 0 || n > trees.len() {
        Seq::empty()
    } else {
        with_keys(
            pass_files(trees, n - 1, all_parametrized),
            harvest(trees[n - 1], all_parametrized).uncertain,
            harvest(trees[n - 1], all_parametrized).uncertain.len() as int,
        )
    }
}

/// Flattens the collected trees of a pass: the node identifiers of all
/// items in collection order, the errors in collection order, and the
/// uncertain files in ascending order.
pub fn collect_tests_rust_with_options(collectors: &Vec<Collected>, options: &CollectionOptions) -> (r:
    (Vec<String>, CollectionErrors))
    ensures
        texts(r.0@) == nodeids(
            harvest_first(
                collectors@,
                collectors@.len() as int,
                options.all_parametrized_uncertain,
            ).items,
        ),
        errors_view(r.1.errors@) == harvest_first(
            collectors@,
            collectors@.len() as int,
            options.all_parametrized_uncertain,
        ).failures,
        r.1.warnings@.len() == 0,
        texts(r.1.uncertain_files@) == pass_files(
            collectors@,
            collectors@.len() as int,
            options.all_parametrized_uncertain,
        ),
{
    let all: bool = options.all_parametrized_uncertain;
    let mut test_nodes: Vec<String> = Vec::new();
    let mut collection_errors = CollectionErrors {
        errors: Vec::new(),
        warnings: Vec::new(),
        uncertain_files: Vec::new(),
    };
    let mut files: Vec<String> = Vec::new();
    let mut i: usize = 0;
    assert(texts(test_nodes@) =~= nodeids(harvest_first(collectors@, 0, all).items));
    assert(errors_view(collection_errors.errors@) =~= harvest_first(collectors@, 0, all).failures);
    assert(texts(files@) =~= pass_files(collectors@, 0, all));
    while i < collectors.len()
        invariant
            i <= collectors.len(),
            all == options.all_parametrized_uncertain,
            texts(test_nodes@) == nodeids(harvest_first(collectors@, i as int, all).items),
            errors_view(collection_errors.errors@) == harvest_first(
                collectors@,
                i as int,
                all,
            ).failures,
            collection_errors.warnings@.len() == 0,
            texts(files@) == pass_files(collectors@, i as int, all),
        decreases collectors.len() - i,
    {
        let ghost so_far = harvest_first(collectors@, i as int, all);
        let ghost next = harvest(collectors@[i as int], all);
        collect_items_recursive(&collectors[i], &mut test_nodes, &mut collection_errors, all, &mut files);
        assert(nodeids(so_far.items) + nodeids(next.items) =~= nodeids(so_far.items + next.items));
        i += 1;
    }
    collection_errors.uncertain_files = files;
    (test_nodes, collection_errors)
}

/// Flattens the collected trees of a pass with the default options.
pub fn collect_tests_rust(collectors: &Vec<Collected>) -> (r: (Vec<String>, CollectionErrors))
    ensures
        texts(r.0@) == nodeids(
            harvest_first(collectors@, collectors@.len() as int, false).items,
        ),
        errors_view(r.1.errors@) == harvest_first(
            collectors@,
            collectors@.len() as int,
            false,
        ).failures,
        r.1.warnings@.len() == 0,
        texts(r.1.uncertain_files@) == pass_files(collectors@, collectors@.len() as int, false),
{
    collect_tests_rust_with_options(collectors, &CollectionOptions::default())
}

/// The items of a tree, counted with the items that the tree holds.
pub open spec fn leaves(tree: Collected) -> Seq<Function>
    decreases tree, 0int,
{
    match tree {
        Collected::Item(item) => seq![item],
        Collected::Passed { node, children } => leaves_first(children@, children@.len() as int),
        Collected::Failed { node, error } => Seq::empty(),
    }
}

/// The items of the first `n` trees.
pub open spec fn leaves_first(trees: Seq<Collected>, n: int) -> Seq<Function>
    decreases trees, n,
{
    if n <= 0 || n > trees.len() {
        Seq::empty()
    } else {
        leaves_first(trees, n - 1) + leaves(trees[n - 1])
    }
}

/// The flattened item sequence holds exactly the items of the tree, each
/// as often as the tree holds it and in the order of the tree, whatever
/// the options.
pub proof fn law_flattening_keeps_items(tree: Collected, all_parametrized: bool)
    ensures
        harvest(tree, all_parametrized).items == leaves(tree),
        harvest(tree, all_parametrized).items.to_multiset() == leaves(tree).to_multiset(),
    decreases tree, 0int,
{
    match tree {
        Collected::Passed { node, children } => {
            law_flattening_keeps_first(children@, children@.len() as int, all_parametrized);
        },
        _ => {},
    }
}

/// The same for the first `n` trees of a sequence.
pub proof fn law_flattening_keeps_first(trees: Seq<Collected>, n: int, all_parametrized: bool)
    ensures
        harvest_first(trees, n, all_parametrized).items == leaves_first(trees, n),
    decreases trees, n,
{
    if 0 < n <= trees.len() {
        law_flattening_keeps_first(trees, n - 1, all_parametrized);
        law_flattening_keeps_items(trees[n - 1], all_parametrized);
    }
}

/// Putting texts into sorted texts keeps them sorted, keeps what was there
/// and adds each of the texts.
pub proof fn lemma_with_keys(sorted: Seq<Seq<char>>, more: Seq<Seq<char>>, n: int)
    requires
        strictly_sorted(sorted),
        0 <= n <= more.len(),
    ensures
        strictly_sorted(with_keys(sorted, more, n)),
        forall|x: Seq<char>| sorted.contains(x) ==> with_keys(sorted, more, n).contains(x),
        forall|i: int| 0 <= i < n ==> with_keys(sorted, more, n).contains(#[trigger] more[i]),
    decreases n,
{
    if n > 0 {
        lemma_with_keys(sorted, more, n - 1);
        lemma_with_key(with_keys(sorted, more, n - 1), more[n - 1]);
        assert forall|i: int| 0 <= i < n implies with_keys(sorted, more, n).contains(
            #[trigger] more[i],
        ) by {
            if i < n - 1 {
                assert(with_keys(sorted, more, n - 1).contains(more[i]));
            }
        }
    }
}

/// The file of a parametrized item whose identifier may differ from the
/// host's is among the uncertain files of the pass, and so is the file of
/// every parametrized item that was not expanded into rows.
pub proof fn law_uncertain_file_listed(sorted: Seq<Seq<char>>, item: Function, all_parametrized: bool)
    requires
        strictly_sorted(sorted),
        item.is_parametrized,
        item.has_uncertain_params || !item.nodeid@.contains('['),
    ensures
        with_keys(
            sorted,
            harvest(Collected::Item(item), all_parametrized).uncertain,
            harvest(Collected::Item(item), all_parametrized).uncertain.len() as int,
        ).contains(file_part(item.nodeid@)),
{
    let noted = harvest(Collected::Item(item), all_parametrized).uncertain;
    assert(noted =~= seq![file_part(item.nodeid@)]);
    lemma_with_keys(sorted, noted, 1);
    assert(noted[0] == file_part(item.nodeid@));
}

/// The file of a module that could not be collected is among the
/// uncertain files of the pass, whatever the module is called; the module
/// gives no item and exactly its one error.
pub proof fn law_failed_module_listed(
    sorted: Seq<Seq<char>>,
    node: CollectorNode,
    error: CollectionError,
    all_parametrized: bool,
)
    requires
        strictly_sorted(sorted),
        node is Module,
    ensures
        harvest(Collected::Failed { node, error }, all_parametrized).items.len() == 0,
        harvest(Collected::Failed { node, error }, all_parametrized).failures == seq![
            (node.nodeid_view(), error),
        ],
        with_keys(
            sorted,
            harvest(Collected::Failed { node, error }, all_parametrized).uncertain,
            harvest(Collected::Failed { node, error }, all_parametrized).uncertain.len() as int,
        ).contains(file_part(node.nodeid_view())),
{
    let noted = harvest(Collected::Failed { node, error }, all_parametrized).uncertain;
    assert(noted =~= seq![file_part(node.nodeid_view())]);
    lemma_with_keys(sorted, noted, 1);
    assert(noted[0] == file_part(node.nodeid_view()));
}

} // verus!
