//! Distribution of an ordered item sequence over worker processes.
//!
//! Every policy is a pure function of the input order and the worker count:
//! what it returns is stated exactly by a model in [`crate::partition`].

use crate::collection::types::Function;
use crate::cpus::logical_cpus;
use crate::error::SchedulerError;
use crate::partition::{
    distinct_keys_upto, every_kth_upto, grouped, grouped_upto, is_partition, lemma_grouped_spread_is_partition,
    lemma_grouped_step, lemma_round_robin_is_partition, lemma_slot_in_range, load_upto, loads,
    nonempty_upto, rank_from, round_robin, smaller, spread,
};
use crate::text::{
    chars_eq, contains_text, find_from, first_occurrence, lemma_first_occurrence_at,
    lemma_occurrence_found, less_than, occurs_at, str_eq, string_of_range, texts, to_chars,
};
use vstd::prelude::*;
use vstd::std_specs::iter::IteratorSpec;
use vstd::string::StringExecFns;

verus! {

/// How items are dealt out to workers.
#[derive(Debug, Clone, Copy, PartialEq, Eq, Hash, Structural)]
pub enum DistributionMode {
    /// Round-robin over the items.
    Load,
    /// Items of one class, or else of one file, stay together.
    LoadScope,
    /// Items of one file stay together.
    LoadFile,
    /// Items with one group tag stay together.
    LoadGroup,
    /// Round-robin, meant for item-by-item execution.
    WorkSteal,
    /// Everything in one batch.
    No,
}

/// Why a text names no distribution mode.
#[derive(Debug, Clone)]
pub enum ParseDistributionModeError {
    /// The text is none of the mode names.
    UnknownMode(String),
}

impl DistributionMode {
    /// The name of the mode as written on the command line.
    pub open spec fn name(self) -> Seq<char> {
        match self {
            DistributionMode::Load => "load"@,
            DistributionMode::LoadScope => "loadscope"@,
            DistributionMode::LoadFile => "loadfile"@,
            DistributionMode::LoadGroup => "loadgroup"@,
            DistributionMode::WorkSteal => "worksteal"@,
            DistributionMode::No => "no"@,
        }
    }

    /// The name of the mode as written on the command line.
    pub fn as_str(&self) -> (s: &'static str)
        ensures
            s@ == self.name(),
    {
        match self {
            DistributionMode::Load => "load",
            DistributionMode::LoadScope => "loadscope",
            DistributionMode::LoadFile => "loadfile",
            DistributionMode::LoadGroup => "loadgroup",
            DistributionMode::WorkSteal => "worksteal",
            DistributionMode::No => "no",
        }
    }

    /// The name of the mode as an owned string.
    pub fn to_string(&self) -> (s: String)
        ensures
            s@ == self.name(),
    {
        String::from_str(self.as_str())
    }

    /// All modes, in the order in which they are documented.
    pub fn all() -> (v: Vec<DistributionMode>)
        ensures
            v@ == seq![
                DistributionMode::Load,
                DistributionMode::LoadScope,
                DistributionMode::LoadFile,
                DistributionMode::LoadGroup,
                DistributionMode::WorkSteal,
                DistributionMode::No,
            ],
    {
        let mut v: Vec<DistributionMode> = Vec::new();
        v.push(DistributionMode::Load);
        v.push(DistributionMode::LoadScope);
        v.push(DistributionMode::LoadFile);
        v.push(DistributionMode::LoadGroup);
        v.push(DistributionMode::WorkSteal);
        v.push(DistributionMode::No);
        assert(v@ =~= seq![
            DistributionMode::Load,
            DistributionMode::LoadScope,
            DistributionMode::LoadFile,
            DistributionMode::LoadGroup,
            DistributionMode::WorkSteal,
            DistributionMode::No,
        ]);
        v
    }

    /// The mode that `s` names. Every mode is named by exactly one text; any
    /// other text is handed back in the error.
    pub fn parse(s: &str) -> (r: Result<DistributionMode, ParseDistributionModeError>)
        ensures
            match r {
                Ok(mode) => s@ == mode.name(),
                Err(ParseDistributionModeError::UnknownMode(text)) => {
                    &&& text@ == s@
                    &&& forall|mode: DistributionMode| s@ != mode.name()
                },
            },
    {
        if str_eq(s, "load") {
            Ok(DistributionMode::Load)
        } else if str_eq(s, "loadscope") {
            Ok(DistributionMode::LoadScope)
        } else if str_eq(s, "loadfile") {
            Ok(DistributionMode::LoadFile)
        } else if str_eq(s, "loadgroup") {
            Ok(DistributionMode::LoadGroup)
        } else if str_eq(s, "worksteal") {
            Ok(DistributionMode::WorkSteal)
        } else if str_eq(s, "no") {
            Ok(DistributionMode::No)
        } else {
            assert forall|mode: DistributionMode| s@ != mode.name() by {
                match mode {
                    DistributionMode::Load => {},
                    DistributionMode::LoadScope => {},
                    DistributionMode::LoadFile => {},
                    DistributionMode::LoadGroup => {},
                    DistributionMode::WorkSteal => {},
                    DistributionMode::No => {},
                }
            }
            Err(ParseDistributionModeError::UnknownMode(String::from_str(s)))
        }
    }
}

impl std::str::FromStr for DistributionMode {
    type Err = ParseDistributionModeError;

    /// The mode that `s` names, or `s` handed back in the error where it
    /// names none.
    fn from_str(s: &str) -> (r: Result<DistributionMode, ParseDistributionModeError>)
        ensures
            match r {
                Ok(mode) => s@ == mode.name(),
                Err(ParseDistributionModeError::UnknownMode(text)) => {
                    &&& text@ == s@
                    &&& forall|mode: DistributionMode| s@ != mode.name()
                },
            },
    {
        DistributionMode::parse(s)
    }
}

impl ParseDistributionModeError {
    /// The message shown for this error: the rejected text and the modes
    /// that exist.
    pub open spec fn message(self) -> Seq<char> {
        match self {
            ParseDistributionModeError::UnknownMode(text) => "Unsupported distribution mode: '"@
                + text@
                + "'. Supported modes: load, loadscope, loadfile, loadgroup, worksteal, no"@,
        }
    }

    /// Renders the message.
    pub fn to_string(&self) -> (s: String)
        ensures
            s@ == self.message(),
    {
        match self {
            ParseDistributionModeError::UnknownMode(text) => {
                let mut s = String::from_str("Unsupported distribution mode: '");
                s.append(text.as_str());
                s.append("'. Supported modes: load, loadscope, loadfile, loadgroup, worksteal, no");
                s
            },
        }
    }
}

/// The batches of a result, each as the sequence of its items.
pub open spec fn batches_view<T>(batches: Vec<Vec<T>>) -> Seq<Seq<T>> {
    batches@.map_values(|b: Vec<T>| b@)
}

/// The texts that a vector of character vectors holds.
pub open spec fn chars_view(v: Seq<Vec<char>>) -> Seq<Seq<char>> {
    v.map_values(|s: Vec<char>| s@)
}

/// The two colons that part the segments of a node identifier.
pub open spec fn separator() -> Seq<char> {
    seq![':', ':']
}

/// The file portion of a node identifier: what stands before the first
/// separator, or the whole where there is none.
pub open spec fn file_part(nodeid: Seq<char>) -> Seq<char> {
    let first = first_occurrence(nodeid, separator(), 0);
    if first < 0 {
        nodeid
    } else {
        nodeid.subrange(0, first)
    }
}

/// The scope of a node identifier: `file::Class` where two separators
/// exist, else the file portion.
pub open spec fn scope_part(nodeid: Seq<char>) -> Seq<char> {
    let first = first_occurrence(nodeid, separator(), 0);
    if first < 0 {
        nodeid
    } else {
        let second = first_occurrence(nodeid, separator(), first + 2);
        if second < 0 {
            nodeid.subrange(0, first)
        } else {
            nodeid.subrange(0, second)
        }
    }
}

/// The error for a worker count of zero.
pub open spec fn zero_workers_error() -> SchedulerError {
    SchedulerError::InvalidWorkerCount { requested: 0, min: 1, max: usize::MAX }
}

fn separator_chars() -> (v: Vec<char>)
    ensures
        v@ == separator(),
{
    let mut v: Vec<char> = Vec::new();
    v.push(':');
    v.push(':');
    assert(v@ =~= separator());
    v
}

/// The scope of a node identifier: `file::Class` for a method, the file for
/// a function or a bare path.
pub fn extract_scope(test_path: &str) -> (scope: String)
    ensures
        scope@ == scope_part(test_path@),
{
    let chars = to_chars(test_path);
    let sep = separator_chars();
    match find_from(&chars, &sep, 0) {
        None => {
            let s = string_of_range(&chars, 0, chars.len());
            assert(chars@.subrange(0, chars.len() as int) =~= chars@);
            s
        },
        Some(first) => {
            match find_from(&chars, &sep, first + 2) {
                Some(second) => string_of_range(&chars, 0, second),
                None => string_of_range(&chars, 0, first),
            }
        },
    }
}

/// The file portion of a node identifier.
pub fn extract_file(test_path: &str) -> (file: String)
    ensures
        file@ == file_part(test_path@),
{
    let chars = to_chars(test_path);
    let sep = separator_chars();
    match find_from(&chars, &sep, 0) {
        None => {
            let s = string_of_range(&chars, 0, chars.len());
            assert(chars@.subrange(0, chars.len() as int) =~= chars@);
            s
        },
        Some(first) => string_of_range(&chars, 0, first),
    }
}

/// Checks the inputs of a distribution that wants at least one item: a
/// worker count of zero is refused first, an empty input second.
pub fn validate_inputs<T>(items: &[T], num_workers: usize) -> (r: Result<(), SchedulerError>)
    ensures
        num_workers == 0 ==> r == Err::<(), SchedulerError>(zero_workers_error()),
        num_workers > 0 && items@.len() == 0 ==> r == Err::<(), SchedulerError>(
            SchedulerError::EmptyInput,
        ),
        num_workers > 0 && items@.len() > 0 ==> r is Ok,
{
    if num_workers == 0 {
        return Err(
            SchedulerError::InvalidWorkerCount { requested: num_workers, min: 1, max: usize::MAX },
        );
    }
    if items.len() == 0 {
        return Err(SchedulerError::EmptyInput);
    }
    Ok(())
}

/// As many empty batches as there are workers.
pub fn create_workers<T>(num_workers: usize) -> (workers: Vec<Vec<T>>)
    ensures
        workers.len() == num_workers,
        forall|j: int| 0 <= j < num_workers ==> (#[trigger] workers[j])@.len() == 0,
{
    let mut workers: Vec<Vec<T>> = Vec::new();
    let mut j: usize = 0;
    while j < num_workers
        invariant
            j <= num_workers,
            workers.len() == j,
            forall|m: int| 0 <= m < j ==> (#[trigger] workers[m])@.len() == 0,
        decreases num_workers - j,
    {
        workers.push(Vec::new());
        j += 1;
    }
    workers
}

/// Deals the items out round-robin: item `i` goes to batch `i mod k`.
pub fn distribute_round_robin<T>(items: Vec<T>, num_workers: usize) -> (batches: Vec<Vec<T>>)
    requires
        num_workers > 0,
    ensures
        batches_view(batches) == round_robin(items@, num_workers as int),
{
    let total: usize = items.len();
    let width: usize = if num_workers < total {
        num_workers
    } else {
        total
    };
    let mut workers: Vec<Vec<T>> = create_workers(width);
    let mut i: usize = 0;
    for item in it: items
        invariant
            it.seq() == items@,
            i == it.index(),
            total == items@.len(),
            width == smaller(total as int, num_workers as int),
            num_workers > 0,
            workers.len() == width,
            forall|j: int|
                0 <= j < width ==> (#[trigger] workers[j])@ == every_kth_upto(
                    items@,
                    num_workers as int,
                    j,
                    i as int,
                ),
    {
        let slot: usize = i % num_workers;
        proof {
            lemma_slot_in_range(i as int, total as int, num_workers as int);
        }
        workers[slot].push(item);
        i += 1;
    }
    assert(batches_view(workers) =~= round_robin(items@, num_workers as int));
    workers
}

/// Groups the items by key: `keys[i]` is the key of `items[i]`. The groups
/// come in ascending key order, the items of a group in input order.
pub fn group_items_by_key<T>(items: Vec<T>, keys: &Vec<String>) -> (groups: Vec<Vec<T>>)
    requires
        items.len() == keys.len(),
    ensures
        batches_view(groups) == grouped(items@, texts(keys@)),
{
    let ghost kv = texts(keys@);
    let mut order: Vec<Vec<char>> = Vec::new();
    let mut groups: Vec<Vec<T>> = Vec::new();
    let mut i: usize = 0;
    assert(batches_view(groups) =~= grouped_upto(items@, kv, 0));
    assert(chars_view(order@) =~= distinct_keys_upto(kv, 0));
    for item in it: items
        invariant
            it.seq() == items@,
            i == it.index(),
            kv == texts(keys@),
            keys.len() == items@.len(),
            chars_view(order@) == distinct_keys_upto(kv, i as int),
            groups.len() == order.len(),
            batches_view(groups) == grouped_upto(items@, kv, i as int),
    {
        let key: Vec<char> = to_chars(keys[i].as_str());
        assert(key@ == kv[i as int]);
        let ghost sorted = chars_view(order@);
        let mut p: usize = 0;
        while p < order.len() && less_than(&order[p], &key)
            invariant
                p <= order.len(),
                sorted == chars_view(order@),
                rank_from(sorted, key@, 0) == rank_from(sorted, key@, p as int),
            decreases order.len() - p,
        {
            assert(sorted[p as int] == order@[p as int]@);
            p += 1;
        }
        proof {
            if p < order.len() {
                assert(sorted[p as int] == order@[p as int]@);
            }
            lemma_grouped_step(items@, kv, i as int);
        }
        let ghost before = batches_view(groups);
        if p < order.len() && chars_eq(&order[p], &key) {
            groups[p].push(item);
            assert(batches_view(groups) =~= before.update(p as int, before[p as int].push(item)));
        } else {
            order.insert(p, key);
            let mut fresh: Vec<T> = Vec::new();
            fresh.push(item);
            groups.insert(p, fresh);
            assert(fresh@ =~= seq![item]);
            assert(batches_view(groups) =~= before.insert(p as int, seq![item]));
            assert(chars_view(order@) =~= sorted.insert(p as int, key@));
        }
        i += 1;
    }
    groups
}

/// Deals whole groups out round-robin over the workers and drops the
/// workers that got nothing. Without workers nothing is dealt out.
pub fn distribute_groups_to_workers<T>(groups: Vec<Vec<T>>, num_workers: usize) -> (workers: Vec<
    Vec<T>,
>)
    ensures
        num_workers == 0 ==> batches_view(workers) == Seq::<Seq<T>>::empty(),
        num_workers > 0 ==> batches_view(workers) == spread(
            batches_view(groups),
            num_workers as int,
        ),
{
    let ghost gv = batches_view(groups);
    if num_workers == 0 {
        let none: Vec<Vec<T>> = Vec::new();
        assert(batches_view(none) =~= Seq::<Seq<T>>::empty());
        return none;
    }
    let total: usize = groups.len();
    let width: usize = if num_workers < total {
        num_workers
    } else {
        total
    };
    let mut filled: Vec<Vec<T>> = create_workers(width);
    let mut i: usize = 0;
    for group in it: groups
        invariant
            it.seq() == groups@,
            i == it.index(),
            gv == batches_view(groups),
            total == groups@.len(),
            width == smaller(total as int, num_workers as int),
            num_workers > 0,
            filled.len() == width,
            forall|j: int|
                0 <= j < width ==> (#[trigger] filled[j])@ == load_upto(
                    gv,
                    num_workers as int,
                    j,
                    i as int,
                ),
    {
        let mut group = group;
        let slot: usize = i % num_workers;
        proof {
            lemma_slot_in_range(i as int, total as int, num_workers as int);
            assert(gv[i as int] == group@);
        }
        filled[slot].append(&mut group);
        i += 1;
    }
    let ghost all = batches_view(filled);
    assert(all =~= loads(gv, num_workers as int));
    let mut workers: Vec<Vec<T>> = Vec::new();
    let mut n: usize = 0;
    assert(batches_view(workers) =~= nonempty_upto(all, 0));
    for load in it: filled
        invariant
            it.seq() == filled@,
            it.seq().len() == width,
            n == it.index(),
            all == batches_view(filled),
            batches_view(workers) == nonempty_upto(all, n as int),
    {
        let ghost before = batches_view(workers);
        assert(all[n as int] == load@);
        if load.len() > 0 {
            workers.push(load);
            assert(batches_view(workers) =~= before.push(load@));
        }
        n += 1;
    }
    workers
}

/// A policy that partitions items over workers.
pub trait Scheduler<T> {
    /// The batches that the policy makes of `items` for `k > 0` workers.
    spec fn plan(&self, items: Seq<T>, k: int) -> Seq<Seq<T>>;

    /// Partitions `items` over `num_workers` workers. A worker count of
    /// zero is refused; an empty input gives no batch.
    fn distribute(&self, items: Vec<T>, num_workers: usize) -> (r: Result<
        Vec<Vec<T>>,
        SchedulerError,
    >)
        ensures
            num_workers == 0 ==> r == Err::<Vec<Vec<T>>, SchedulerError>(zero_workers_error()),
            num_workers > 0 ==> r is Ok && batches_view(r->Ok_0) == self.plan(
                items@,
                num_workers as int,
            ),
    ;

    /// The least number of workers that the policy can use.
    fn min_workers(&self) -> (n: usize)
        ensures
            n == 1,
    ;

    /// Whether `n` workers suit `item_count` items on some machine.
    spec fn suits(&self, item_count: usize, n: usize) -> bool;

    /// A worker count that suits `item_count` items on this machine.
    fn recommend_workers(&self, item_count: usize) -> (n: usize)
        ensures
            self.suits(item_count, n),
    ;
}

/// Round-robin over the items.
pub struct LoadScheduler;

/// Items of one scope stay together.
pub struct LoadScopeScheduler;

/// Items of one file stay together.
pub struct LoadFileScheduler;

/// Items with one group tag stay together.
pub struct LoadGroupScheduler;

/// Round-robin, interleaving neighbours so that work can be stolen evenly.
pub struct WorkStealScheduler;

/// Everything in one batch.
pub struct NoScheduler;

/// The worker count for `item_count` items on a machine with `cpus`
/// processors: one worker for each processor, but none without an item.
pub open spec fn workers_on_machine(item_count: usize, cpus: usize) -> usize {
    if item_count < cpus {
        item_count
    } else {
        cpus
    }
}

/// The worker count for `item_count` items on a machine with `cpus`
/// processors.
pub fn workers_on(item_count: usize, cpus: usize) -> (n: usize)
    ensures
        n == workers_on_machine(item_count, cpus),
{
    if item_count < cpus {
        item_count
    } else {
        cpus
    }
}

/// Whether `n` is the worker count for `item_count` items on some machine,
/// which has at least one processor.
pub open spec fn at_most_one_each(item_count: usize, n: usize) -> bool {
    exists|cpus: usize| cpus >= 1 && n == #[trigger] workers_on_machine(item_count, cpus)
}

/// The worker counts of some machine are these: no worker without items,
/// else at least one worker and at most one for each item.
pub proof fn law_worker_counts(item_count: usize, n: usize)
    ensures
        at_most_one_each(item_count, n) <==> if item_count == 0 {
            n == 0
        } else {
            1 <= n <= item_count
        },
{
    if item_count == 0 {
        if n == 0 {
            assert(n == workers_on_machine(item_count, 1));
        }
    } else if 1 <= n <= item_count {
        assert(n == workers_on_machine(item_count, n));
    }
}

/// The worker count for `item_count` items on this machine, by its number
/// of logical processors.
fn workers_for(item_count: usize) -> (n: usize)
    ensures
        at_most_one_each(item_count, n),
{
    let cpus: usize = logical_cpus();
    let n = workers_on(item_count, cpus);
    assert(n == workers_on_machine(item_count, cpus));
    n
}

/// The plan of the policies that group by a key of the node identifier.
pub open spec fn keyed_plan(items: Seq<String>, keys: Seq<Seq<char>>, k: int) -> Seq<Seq<String>> {
    if items.len() == 0 {
        Seq::empty()
    } else if k == 1 {
        seq![items]
    } else {
        spread(grouped(items, keys), k)
    }
}

/// The scopes of the node identifiers.
pub open spec fn scope_keys(items: Seq<String>) -> Seq<Seq<char>> {
    items.map_values(|s: String| scope_part(s@))
}

/// The file portions of the node identifiers.
pub open spec fn file_keys(items: Seq<String>) -> Seq<Seq<char>> {
    items.map_values(|s: String| file_part(s@))
}

/// The group keys of the items: the tag, or the node identifier of an item
/// without one.
pub open spec fn group_keys(items: Seq<Function>) -> Seq<Seq<char>> {
    items.map_values(|f: Function| f.group_key())
}

/// The plan of the group policy.
pub open spec fn group_plan(items: Seq<Function>, k: int) -> Seq<Seq<Function>> {
    if items.len() == 0 {
        Seq::empty()
    } else if k == 1 {
        seq![items]
    } else {
        spread(grouped(items, group_keys(items)), k)
    }
}

/// The plan of the policy without distribution.
pub open spec fn single_plan<T>(items: Seq<T>) -> Seq<Seq<T>> {
    if items.len() == 0 {
        Seq::empty()
    } else {
        seq![items]
    }
}

fn no_batches<T>() -> (batches: Vec<Vec<T>>)
    ensures
        batches_view(batches) == Seq::<Seq<T>>::empty(),
{
    let batches: Vec<Vec<T>> = Vec::new();
    assert(batches_view(batches) =~= Seq::<Seq<T>>::empty());
    batches
}

fn one_batch<T>(items: Vec<T>) -> (batches: Vec<Vec<T>>)
    ensures
        batches_view(batches) == seq![items@],
{
    let mut batches: Vec<Vec<T>> = Vec::new();
    batches.push(items);
    assert(batches_view(batches) =~= seq![items@]);
    batches
}

impl<T> Scheduler<T> for LoadScheduler {
    open spec fn suits(&self, item_count: usize, n: usize) -> bool {
        at_most_one_each(item_count, n)
    }

    open spec fn plan(&self, items: Seq<T>, k: int) -> Seq<Seq<T>> {
        round_robin(items, k)
    }

    fn distribute(&self, items: Vec<T>, num_workers: usize) -> (r: Result<
        Vec<Vec<T>>,
        SchedulerError,
    >) {
        if num_workers == 0 {
            return Err(
                SchedulerError::InvalidWorkerCount {
                    requested: num_workers,
                    min: 1,
                    max: usize::MAX,
                },
            );
        }
        Ok(distribute_round_robin(items, num_workers))
    }

    fn min_workers(&self) -> (n: usize) {
        1
    }

    fn recommend_workers(&self, item_count: usize) -> (n: usize) {
        workers_for(item_count)
    }
}

impl<T> Scheduler<T> for WorkStealScheduler {
    open spec fn suits(&self, item_count: usize, n: usize) -> bool {
        at_most_one_each(item_count, n)
    }

    open spec fn plan(&self, items: Seq<T>, k: int) -> Seq<Seq<T>> {
        round_robin(items, k)
    }

    fn distribute(&self, items: Vec<T>, num_workers: usize) -> (r: Result<
        Vec<Vec<T>>,
        SchedulerError,
    >) {
        if num_workers == 0 {
            return Err(
                SchedulerError::InvalidWorkerCount {
                    requested: num_workers,
                    min: 1,
                    max: usize::MAX,
                },
            );
        }
        Ok(distribute_round_robin(items, num_workers))
    }

    fn min_workers(&self) -> (n: usize) {
        1
    }

    fn recommend_workers(&self, item_count: usize) -> (n: usize) {
        workers_for(item_count)
    }
}

impl<T> Scheduler<T> for NoScheduler {
    open spec fn suits(&self, item_count: usize, n: usize) -> bool {
        n == 1
    }

    open spec fn plan(&self, items: Seq<T>, k: int) -> Seq<Seq<T>> {
        single_plan(items)
    }

    fn distribute(&self, items: Vec<T>, num_workers: usize) -> (r: Result<
        Vec<Vec<T>>,
        SchedulerError,
    >) {
        if num_workers == 0 {
            return Err(
                SchedulerError::InvalidWorkerCount {
                    requested: num_workers,
                    min: 1,
                    max: usize::MAX,
                },
            );
        }
        if items.len() == 0 {
            Ok(no_batches())
        } else {
            Ok(one_batch(items))
        }
    }

    fn min_workers(&self) -> (n: usize) {
        1
    }

    fn recommend_workers(&self, item_count: usize) -> (n: usize) {
        1
    }
}

/// The scope of each node identifier.
fn scopes_of(items: &Vec<String>) -> (keys: Vec<String>)
    ensures
        texts(keys@) == scope_keys(items@),
        keys.len() == items.len(),
{
    let mut keys: Vec<String> = Vec::new();
    let mut i: usize = 0;
    while i < items.len()
        invariant
            i <= items.len(),
            keys.len() == i,
            forall|m: int| 0 <= m < i ==> (#[trigger] keys[m])@ == scope_part(items[m]@),
        decreases items.len() - i,
    {
        keys.push(extract_scope(items[i].as_str()));
        i += 1;
    }
    assert(texts(keys@) =~= scope_keys(items@));
    keys
}

/// The file portion of each node identifier.
fn files_of(items: &Vec<String>) -> (keys: Vec<String>)
    ensures
        texts(keys@) == file_keys(items@),
        keys.len() == items.len(),
{
    let mut keys: Vec<String> = Vec::new();
    let mut i: usize = 0;
    while i < items.len()
        invariant
            i <= items.len(),
            keys.len() == i,
            forall|m: int| 0 <= m < i ==> (#[trigger] keys[m])@ == file_part(items[m]@),
        decreases items.len() - i,
    {
        keys.push(extract_file(items[i].as_str()));
        i += 1;
    }
    assert(texts(keys@) =~= file_keys(items@));
    keys
}

/// The group key of each item.
fn groups_of(items: &Vec<Function>) -> (keys: Vec<String>)
    ensures
        texts(keys@) == group_keys(items@),
        keys.len() == items.len(),
{
    let mut keys: Vec<String> = Vec::new();
    let mut i: usize = 0;
    while i < items.len()
        invariant
            i <= items.len(),
            keys.len() == i,
            forall|m: int| 0 <= m < i ==> (#[trigger] keys[m])@ == items[m].group_key(),
        decreases items.len() - i,
    {
        let key: String = match &items[i].xdist_group {
            Some(group) => group.clone(),
            None => items[i].nodeid.clone(),
        };
        keys.push(key);
        i += 1;
    }
    assert(texts(keys@) =~= group_keys(items@));
    keys
}

impl Scheduler<String> for LoadScopeScheduler {
    open spec fn suits(&self, item_count: usize, n: usize) -> bool {
        at_most_one_each(item_count, n)
    }

    open spec fn plan(&self, items: Seq<String>, k: int) -> Seq<Seq<String>> {
        keyed_plan(items, scope_keys(items), k)
    }

    fn distribute(&self, items: Vec<String>, num_workers: usize) -> (r: Result<
        Vec<Vec<String>>,
        SchedulerError,
    >) {
        if num_workers == 0 {
            return Err(
                SchedulerError::InvalidWorkerCount {
                    requested: num_workers,
                    min: 1,
                    max: usize::MAX,
                },
            );
        }
        if items.len() == 0 {
            return Ok(no_batches());
        }
        if num_workers == 1 {
            return Ok(one_batch(items));
        }
        let keys = scopes_of(&items);
        let groups = group_items_by_key(items, &keys);
        Ok(distribute_groups_to_workers(groups, num_workers))
    }

    fn min_workers(&self) -> (n: usize) {
        1
    }

    fn recommend_workers(&self, item_count: usize) -> (n: usize) {
        workers_for(item_count)
    }
}

impl Scheduler<String> for LoadFileScheduler {
    open spec fn suits(&self, item_count: usize, n: usize) -> bool {
        at_most_one_each(item_count, n)
    }

    open spec fn plan(&self, items: Seq<String>, k: int) -> Seq<Seq<String>> {
        keyed_plan(items, file_keys(items), k)
    }

    fn distribute(&self, items: Vec<String>, num_workers: usize) -> (r: Result<
        Vec<Vec<String>>,
        SchedulerError,
    >) {
        if num_workers == 0 {
            return Err(
                SchedulerError::InvalidWorkerCount {
                    requested: num_workers,
                    min: 1,
                    max: usize::MAX,
                },
            );
        }
        if items.len() == 0 {
            return Ok(no_batches());
        }
        if num_workers == 1 {
            return Ok(one_batch(items));
        }
        let keys = files_of(&items);
        let groups = group_items_by_key(items, &keys);
        Ok(distribute_groups_to_workers(groups, num_workers))
    }

    fn min_workers(&self) -> (n: usize) {
        1
    }

    fn recommend_workers(&self, item_count: usize) -> (n: usize) {
        workers_for(item_count)
    }
}

impl Scheduler<Function> for LoadGroupScheduler {
    open spec fn suits(&self, item_count: usize, n: usize) -> bool {
        at_most_one_each(item_count, n)
    }

    open spec fn plan(&self, items: Seq<Function>, k: int) -> Seq<Seq<Function>> {
        group_plan(items, k)
    }

    fn distribute(&self, items: Vec<Function>, num_workers: usize) -> (r: Result<
        Vec<Vec<Function>>,
        SchedulerError,
    >) {
        if num_workers == 0 {
            return Err(
                SchedulerError::InvalidWorkerCount {
                    requested: num_workers,
                    min: 1,
                    max: usize::MAX,
                },
            );
        }
        if items.len() == 0 {
            return Ok(no_batches());
        }
        if num_workers == 1 {
            return Ok(one_batch(items));
        }
        let keys = groups_of(&items);
        let groups = group_items_by_key(items, &keys);
        Ok(distribute_groups_to_workers(groups, num_workers))
    }

    fn min_workers(&self) -> (n: usize) {
        1
    }

    fn recommend_workers(&self, item_count: usize) -> (n: usize) {
        workers_for(item_count)
    }
}

impl Scheduler<String> for LoadGroupScheduler {
    open spec fn suits(&self, item_count: usize, n: usize) -> bool {
        at_most_one_each(item_count, n)
    }

    /// Node identifiers carry no group tag, so they are dealt out
    /// round-robin.
    open spec fn plan(&self, items: Seq<String>, k: int) -> Seq<Seq<String>> {
        round_robin(items, k)
    }

    fn distribute(&self, items: Vec<String>, num_workers: usize) -> (r: Result<
        Vec<Vec<String>>,
        SchedulerError,
    >) {
        if num_workers == 0 {
            return Err(
                SchedulerError::InvalidWorkerCount {
                    requested: num_workers,
                    min: 1,
                    max: usize::MAX,
                },
            );
        }
        Ok(distribute_round_robin(items, num_workers))
    }

    fn min_workers(&self) -> (n: usize) {
        1
    }

    fn recommend_workers(&self, item_count: usize) -> (n: usize) {
        workers_for(item_count)
    }
}

/// A policy for node identifiers, chosen by mode.
pub struct StringScheduler {
    pub mode: DistributionMode,
}

/// A policy for test items, chosen by mode.
pub struct FunctionScheduler {
    pub mode: DistributionMode,
}

/// What each mode makes of node identifiers. A node identifier carries no
/// group tag, so the group mode deals out round-robin.
pub open spec fn string_plan(mode: DistributionMode, items: Seq<String>, k: int) -> Seq<
    Seq<String>,
> {
    match mode {
        DistributionMode::Load => round_robin(items, k),
        DistributionMode::LoadScope => keyed_plan(items, scope_keys(items), k),
        DistributionMode::LoadFile => keyed_plan(items, file_keys(items), k),
        DistributionMode::LoadGroup => round_robin(items, k),
        DistributionMode::WorkSteal => round_robin(items, k),
        DistributionMode::No => single_plan(items),
    }
}

/// What each mode makes of test items. An item has no scope or file of its
/// own here, so those modes deal out round-robin.
pub open spec fn function_plan(mode: DistributionMode, items: Seq<Function>, k: int) -> Seq<
    Seq<Function>,
> {
    match mode {
        DistributionMode::Load => round_robin(items, k),
        DistributionMode::LoadScope => round_robin(items, k),
        DistributionMode::LoadFile => round_robin(items, k),
        DistributionMode::LoadGroup => group_plan(items, k),
        DistributionMode::WorkSteal => round_robin(items, k),
        DistributionMode::No => single_plan(items),
    }
}

impl Scheduler<String> for StringScheduler {
    open spec fn suits(&self, item_count: usize, n: usize) -> bool {
        match self.mode {
            DistributionMode::No => n == 1,
            _ => at_most_one_each(item_count, n),
        }
    }

    open spec fn plan(&self, items: Seq<String>, k: int) -> Seq<Seq<String>> {
        string_plan(self.mode, items, k)
    }

    fn distribute(&self, items: Vec<String>, num_workers: usize) -> (r: Result<
        Vec<Vec<String>>,
        SchedulerError,
    >) {
        match self.mode {
            DistributionMode::Load => LoadScheduler.distribute(items, num_workers),
            DistributionMode::LoadScope => LoadScopeScheduler.distribute(items, num_workers),
            DistributionMode::LoadFile => LoadFileScheduler.distribute(items, num_workers),
            DistributionMode::LoadGroup => LoadGroupScheduler.distribute(items, num_workers),
            DistributionMode::WorkSteal => WorkStealScheduler.distribute(items, num_workers),
            DistributionMode::No => NoScheduler.distribute(items, num_workers),
        }
    }

    fn min_workers(&self) -> (n: usize) {
        1
    }

    fn recommend_workers(&self, item_count: usize) -> (n: usize) {
        match self.mode {
            DistributionMode::No => 1,
            _ => workers_for(item_count),
        }
    }
}

impl Scheduler<Function> for FunctionScheduler {
    open spec fn suits(&self, item_count: usize, n: usize) -> bool {
        match self.mode {
            DistributionMode::No => n == 1,
            _ => at_most_one_each(item_count, n),
        }
    }

    open spec fn plan(&self, items: Seq<Function>, k: int) -> Seq<Seq<Function>> {
        function_plan(self.mode, items, k)
    }

    fn distribute(&self, items: Vec<Function>, num_workers: usize) -> (r: Result<
        Vec<Vec<Function>>,
        SchedulerError,
    >) {
        match self.mode {
            DistributionMode::Load => LoadScheduler.distribute(items, num_workers),
            DistributionMode::LoadScope => LoadScheduler.distribute(items, num_workers),
            DistributionMode::LoadFile => LoadScheduler.distribute(items, num_workers),
            DistributionMode::LoadGroup => LoadGroupScheduler.distribute(items, num_workers),
            DistributionMode::WorkSteal => WorkStealScheduler.distribute(items, num_workers),
            DistributionMode::No => NoScheduler.distribute(items, num_workers),
        }
    }

    fn min_workers(&self) -> (n: usize) {
        1
    }

    fn recommend_workers(&self, item_count: usize) -> (n: usize) {
        match self.mode {
            DistributionMode::No => 1,
            _ => workers_for(item_count),
        }
    }
}

/// The policy that `mode` names, for node identifiers.
pub fn create_scheduler_string(mode: DistributionMode) -> (scheduler: StringScheduler)
    ensures
        scheduler.mode == mode,
{
    StringScheduler { mode }
}

/// The policy that `mode` names, for test items.
pub fn create_scheduler_function(mode: DistributionMode) -> (scheduler: FunctionScheduler)
    ensures
        scheduler.mode == mode,
{
    FunctionScheduler { mode }
}

/// No batches at all split an empty input; the input as its only batch
/// splits a non-empty one.
pub proof fn lemma_single_plan_is_partition<T>(items: Seq<T>, k: int)
    requires
        k > 0,
    ensures
        is_partition(single_plan(items), items, k),
{
    if items.len() == 0 {
        assert(items =~= Seq::<T>::empty());
        assert(Seq::<Seq<T>>::empty().flatten() =~= Seq::<T>::empty());
    } else {
        seq![items].lemma_flatten_one_element();
    }
}

/// Every policy for node identifiers splits its input: each item is in
/// exactly one batch, no batch is empty, and there are at most `k` batches.
pub proof fn law_string_plan_is_partition(mode: DistributionMode, items: Seq<String>, k: int)
    requires
        k > 0,
    ensures
        is_partition(string_plan(mode, items, k), items, k),
{
    match mode {
        DistributionMode::LoadScope => {
            if items.len() == 0 || k == 1 {
                lemma_single_plan_is_partition(items, k);
            } else {
                lemma_grouped_spread_is_partition(items, scope_keys(items), k);
            }
        },
        DistributionMode::LoadFile => {
            if items.len() == 0 || k == 1 {
                lemma_single_plan_is_partition(items, k);
            } else {
                lemma_grouped_spread_is_partition(items, file_keys(items), k);
            }
        },
        DistributionMode::No => {
            lemma_single_plan_is_partition(items, k);
        },
        _ => {
            lemma_round_robin_is_partition(items, k);
        },
    }
}

/// Every policy for test items splits its input: each item is in exactly one
/// batch, no batch is empty, and there are at most `k` batches.
pub proof fn law_function_plan_is_partition(mode: DistributionMode, items: Seq<Function>, k: int)
    requires
        k > 0,
    ensures
        is_partition(function_plan(mode, items, k), items, k),
{
    match mode {
        DistributionMode::LoadGroup => {
            if items.len() == 0 || k == 1 {
                lemma_single_plan_is_partition(items, k);
            } else {
                lemma_grouped_spread_is_partition(items, group_keys(items), k);
            }
        },
        DistributionMode::No => {
            lemma_single_plan_is_partition(items, k);
        },
        _ => {
            lemma_round_robin_is_partition(items, k);
        },
    }
}

/// Distribution is a function of the input order and the worker count: two
/// runs of one policy on the same input give the same batches, or fail with
/// the same error.
pub proof fn law_distribution_is_deterministic<T, S: Scheduler<T>>(
    scheduler: S,
    items: Vec<T>,
    num_workers: usize,
    first: Result<Vec<Vec<T>>, SchedulerError>,
    second: Result<Vec<Vec<T>>, SchedulerError>,
)
    requires
        num_workers == 0 ==> first == Err::<Vec<Vec<T>>, SchedulerError>(zero_workers_error()),
        num_workers > 0 ==> first is Ok && batches_view(first->Ok_0) == scheduler.plan(
            items@,
            num_workers as int,
        ),
        num_workers == 0 ==> second == Err::<Vec<Vec<T>>, SchedulerError>(zero_workers_error()),
        num_workers > 0 ==> second is Ok && batches_view(second->Ok_0) == scheduler.plan(
            items@,
            num_workers as int,
        ),
    ensures
        first is Ok <==> second is Ok,
        first is Ok ==> batches_view(first->Ok_0) == batches_view(second->Ok_0),
        first is Err ==> first == second,
{
}

/// A node identifier that is made of a file, the separator and the rest
/// has the file as its file portion, provided that the file holds no
/// separator and does not end in a colon.
pub proof fn law_file_part_of_nodeid(file: Seq<char>, rest: Seq<char>)
    requires
        !contains_text(file, separator()),
        file.len() == 0 || file.last() != ':',
    ensures
        file_part(file + separator() + rest) == file,
{
    let sep = separator();
    let full = file + sep + rest;
    let at = file.len() as int;
    assert(full.subrange(at, at + 2) =~= sep);
    assert forall|i: int| 0 <= i < at implies !occurs_at(full, sep, i) by {
        if occurs_at(full, sep, i) {
            if i + 2 <= at {
                assert(file.subrange(i, i + 2) =~= full.subrange(i, i + 2));
                lemma_occurrence_found(file, sep, 0, i);
            } else {
                assert(full.subrange(i, i + 2)[0] == sep[0]);
                assert(full[i] == file[i]);
            }
        }
    }
    lemma_first_occurrence_at(full, sep, 0, at);
    assert(full.subrange(0, at) =~= file);
}

} // verus!
