//! The decisions of a run: what happens after collection, how the items
//! become batches, which workers are asked for, and which exit status the
//! run ends with.

use crate::collection::types::Function;
use crate::error::SchedulerError;
use crate::scheduler::{
    batches_view, function_plan, separator, string_plan, zero_workers_error, DistributionMode,
    FunctionScheduler, Scheduler, StringScheduler,
};
use crate::text::{contains, contains_text, copy_strings, opt_text, texts, to_chars};
use crate::worker::{command_args, WorkerCommand, WorkerPool};
use vstd::prelude::*;
use vstd::string::StringExecFns;

verus! {

/// What a run does once collection is over.
#[derive(Debug, Clone, Copy, PartialEq, Eq, Structural)]
pub enum NextStep {
    /// End with this exit status.
    Exit(i32),
    /// Run all items in one process.
    RunSingleBatch,
    /// Partition the items and run each batch in a worker of its own.
    RunBatches,
    /// Run each item in a process of its own.
    RunItems,
}

/// What a run does once collection is over: with collection errors it ends
/// with 1; without items, or where only collection was asked for, it ends
/// with 0; with one worker or without distribution it runs a single batch;
/// else it runs items or batches as the mode says.
pub open spec fn step_after_collection(
    error_count: nat,
    item_count: nat,
    collect_only: bool,
    worker_count: nat,
    mode: DistributionMode,
) -> NextStep {
    if error_count > 0 {
        NextStep::Exit(1)
    } else if item_count == 0 || collect_only {
        NextStep::Exit(0)
    } else if worker_count == 1 || mode == DistributionMode::No {
        NextStep::RunSingleBatch
    } else if mode == DistributionMode::WorkSteal {
        NextStep::RunItems
    } else {
        NextStep::RunBatches
    }
}

/// What a run does once collection is over.
pub fn after_collection(
    error_count: usize,
    item_count: usize,
    collect_only: bool,
    worker_count: usize,
    mode: DistributionMode,
) -> (step: NextStep)
    ensures
        step == step_after_collection(
            error_count as nat,
            item_count as nat,
            collect_only,
            worker_count as nat,
            mode,
        ),
{
    if error_count > 0 {
        NextStep::Exit(1)
    } else if item_count == 0 || collect_only {
        NextStep::Exit(0)
    } else if worker_count == 1 || mode == DistributionMode::No {
        NextStep::RunSingleBatch
    } else if mode == DistributionMode::WorkSteal {
        NextStep::RunItems
    } else {
        NextStep::RunBatches
    }
}

/// Whether one of the first `n` arguments names a single node: it holds
/// the separator of node identifiers.
pub open spec fn names_node(files: Seq<Seq<char>>, n: int) -> bool {
    exists|i: int| 0 <= i < n && contains_text(#[trigger] files[i], separator())
}

/// Whether the arguments are handed to the host as they are, without
/// collection: they name single nodes and the run is to execute them.
pub fn runs_without_collection(files: &Vec<String>, collect_only: bool) -> (r: bool)
    ensures
        r == (names_node(texts(files@), files@.len() as int) && !collect_only),
{
    let ghost all = texts(files@);
    let mut sep: Vec<char> = Vec::new();
    sep.push(':');
    sep.push(':');
    assert(sep@ =~= separator());
    let mut i: usize = 0;
    while i < files.len()
        invariant
            i <= files.len(),
            all == texts(files@),
            sep@ == separator(),
            !names_node(all, i as int),
        decreases files.len() - i,
    {
        let chars = to_chars(files[i].as_str());
        assert(all[i as int] == chars@);
        if contains(&chars, &sep) {
            return !collect_only;
        }
        i += 1;
    }
    false
}

/// The root of a run and the arguments that remain: the first argument is
/// the root where it is no option and names an existing path.
pub fn split_root_argument(args: Vec<String>, first_exists: bool) -> (r: (Option<String>, Vec<String>))
    ensures
        (args@.len() > 0 && first_exists && !(args@[0]@.len() > 0 && args@[0]@[0] == '-')) ==> {
            &&& r.0 == Some(args@[0])
            &&& r.1@ == args@.skip(1)
        },
        !(args@.len() > 0 && first_exists && !(args@[0]@.len() > 0 && args@[0]@[0] == '-')) ==> {
            &&& r.0 is None
            &&& r.1@ == args@
        },
{
    if args.len() == 0 || !first_exists {
        return (None, args);
    }
    let first = to_chars(args[0].as_str());
    if first.len() > 0 && first[0] == '-' {
        return (None, args);
    }
    let mut rest = args;
    let root = rest.remove(0);
    assert(rest@ =~= args@.skip(1));
    (Some(root), rest)
}

/// The node identifiers of each batch.
pub open spec fn batch_nodeids(batches: Seq<Seq<Function>>) -> Seq<Seq<Seq<char>>> {
    batches.map_values(|b: Seq<Function>| b.map_values(|f: Function| f.nodeid@))
}

/// The texts of each batch.
pub open spec fn batch_texts(batches: Seq<Vec<String>>) -> Seq<Seq<Seq<char>>> {
    batches.map_values(|b: Vec<String>| texts(b@))
}

/// The batches of node identifiers that the workers run. The group mode
/// partitions the items by their group tags; every other mode partitions
/// the node identifiers.
pub fn plan_batches(
    mode: DistributionMode,
    test_nodes: Vec<String>,
    functions: Vec<Function>,
    worker_count: usize,
) -> (r: Result<Vec<Vec<String>>, SchedulerError>)
    ensures
        worker_count == 0 ==> r == Err::<Vec<Vec<String>>, SchedulerError>(zero_workers_error()),
        worker_count > 0 ==> r is Ok,
        worker_count > 0 && mode == DistributionMode::LoadGroup ==> batch_texts(r->Ok_0@)
            == batch_nodeids(function_plan(mode, functions@, worker_count as int)),
        worker_count > 0 && mode != DistributionMode::LoadGroup ==> batch_texts(r->Ok_0@)
            == batches_texts(string_plan(mode, test_nodes@, worker_count as int)),
{
    match mode {
        DistributionMode::LoadGroup => {
            let scheduler = FunctionScheduler { mode };
            match scheduler.distribute(functions, worker_count) {
                Err(e) => Err(e),
                Ok(batches) => {
                    let mut out: Vec<Vec<String>> = Vec::new();
                    let mut i: usize = 0;
                    while i < batches.len()
                        invariant
                            i <= batches.len(),
                            out.len() == i,
                            forall|k: int|
                                0 <= k < i ==> texts((#[trigger] out@[k])@) == batches@[k]@.map_values(
                                    |f: Function| f.nodeid@,
                                ),
                        decreases batches.len() - i,
                    {
                        let batch = &batches[i];
                        let mut ids: Vec<String> = Vec::new();
                        let mut k: usize = 0;
                        while k < batch.len()
                            invariant
                                k <= batch.len(),
                                ids.len() == k,
                                forall|m: int|
                                    0 <= m < k ==> (#[trigger] ids@[m])@ == batch@[m].nodeid@,
                            decreases batch.len() - k,
                        {
                            ids.push(batch[k].nodeid.clone());
                            k += 1;
                        }
                        assert(texts(ids@) =~= batch@.map_values(|f: Function| f.nodeid@));
                        out.push(ids);
                        i += 1;
                    }
                    assert(batch_texts(out@) =~= batch_nodeids(batches_view(batches)));
                    Ok(out)
                },
            }
        },
        _ => {
            let scheduler = StringScheduler { mode };
            match scheduler.distribute(test_nodes, worker_count) {
                Err(e) => Err(e),
                Ok(batches) => {
                    assert(batch_texts(batches@) =~= batches_texts(batches_view(batches)));
                    Ok(batches)
                },
            }
        },
    }
}

/// The texts of the strings of each batch.
pub open spec fn batches_texts(batches: Seq<Seq<String>>) -> Seq<Seq<Seq<char>>> {
    batches.map_values(|b: Seq<String>| texts(b))
}

/// The positions of the batches among the first `n` that are not empty,
/// ascending.
pub open spec fn nonempty_positions(batches: Seq<Vec<String>>, n: int) -> Seq<usize>
    decreases n,
{
    if n <= 0 {
        Seq::empty()
    } else if batches[n - 1]@.len() > 0 {
        nonempty_positions(batches, n - 1).push((n - 1) as usize)
    } else {
        nonempty_positions(batches, n - 1)
    }
}

/// Whether `command` runs the batch at position `worker_id` in the root
/// directory.
pub open spec fn runs_batch(
    command: WorkerCommand,
    worker_id: usize,
    program: Seq<char>,
    initial_args: Seq<Seq<char>>,
    batches: Seq<Vec<String>>,
    rootpath: Seq<char>,
) -> bool {
    &&& command.worker_id == worker_id
    &&& command.program@ == program
    &&& opt_text(command.working_dir) == Some(rootpath)
    &&& texts(command.args@) == command_args(
        initial_args,
        Some(rootpath),
        texts(batches[worker_id as int]@),
        Seq::empty(),
    )
}

/// Asks the pool for one worker for each batch that is not empty, in the
/// order of the batches: the worker's id is the position of its batch, and
/// it runs in the root directory, which it is told as the root.
pub fn spawn_batches(
    pool: &mut WorkerPool,
    program: &str,
    initial_args: &Vec<String>,
    batches: &Vec<Vec<String>>,
    rootpath: &str,
)
    ensures
        final(pool).planned().len() == old(pool).planned().len() + nonempty_positions(
            batches@,
            batches@.len() as int,
        ).len(),
        forall|i: int|
            0 <= i < old(pool).planned().len() ==> final(pool).planned()[i] == old(
                pool,
            ).planned()[i],
        forall|j: int|
            0 <= j < nonempty_positions(batches@, batches@.len() as int).len() ==> runs_batch(
                #[trigger] final(pool).planned()[old(pool).planned().len() + j],
                nonempty_positions(batches@, batches@.len() as int)[j],
                program@,
                texts(initial_args@),
                batches@,
                rootpath@,
            ),
{
    let ghost start = old(pool).planned();
    let mut i: usize = 0;
    while i < batches.len()
        invariant
            i <= batches.len(),
            pool.planned().len() == start.len() + nonempty_positions(batches@, i as int).len(),
            forall|k: int| 0 <= k < start.len() ==> pool.planned()[k] == start[k],
            forall|j: int|
                0 <= j < nonempty_positions(batches@, i as int).len() ==> (
                #[trigger] nonempty_positions(batches@, i as int)[j]) < i,
            forall|j: int|
                0 <= j < nonempty_positions(batches@, i as int).len() ==> runs_batch(
                    #[trigger] pool.planned()[start.len() + j],
                    nonempty_positions(batches@, i as int)[j],
                    program@,
                    texts(initial_args@),
                    batches@,
                    rootpath@,
                ),
        decreases batches.len() - i,
    {
        let ghost positions = nonempty_positions(batches@, i as int);
        if batches[i].len() > 0 {
            let ghost before = pool.planned();
            let no_args: Vec<String> = Vec::new();
            assert(texts(no_args@) =~= Seq::<Seq<char>>::empty());
            pool.spawn_worker(
                i,
                String::from_str(program),
                copy_strings(initial_args),
                copy_strings(&batches[i]),
                no_args,
                Some(String::from_str(rootpath)),
            );
            let ghost now = pool.planned();
            let ghost grown = nonempty_positions(batches@, i + 1);
            assert(grown == positions.push(i));
            assert forall|k: int| 0 <= k < before.len() implies now[k] == before[k] by {
                assert(now.drop_last()[k] == before[k]);
            }
            assert forall|j: int| 0 <= j < grown.len() implies (#[trigger] grown[j]) < i + 1 by {
                if j < positions.len() {
                    assert(grown[j] == positions[j]);
                }
            }
            assert forall|j: int| 0 <= j < grown.len() implies runs_batch(
                #[trigger] now[start.len() + j],
                grown[j],
                program@,
                texts(initial_args@),
                batches@,
                rootpath@,
            ) by {
                if j < positions.len() {
                    assert(now[start.len() + j] == before[start.len() + j]);
                    assert(grown[j] == positions[j]);
                    assert(runs_batch(
                        before[start.len() + j],
                        positions[j],
                        program@,
                        texts(initial_args@),
                        batches@,
                        rootpath@,
                    ));
                } else {
                    assert(now[start.len() + j] == now.last());
                }
            }
        } else {
            assert(nonempty_positions(batches@, i + 1) == positions);
        }
        i += 1;
    }
}

} // verus!
