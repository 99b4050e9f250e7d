//! The worker pool as seen from the planner: which command each worker
//! runs, and how the workers' results fold into one exit status.
//!
//! Starting processes and waiting for them is left to the caller. The pool
//! records the command of each worker, and once the caller hands back how
//! each process ended, returns the results ordered by worker id.

use crate::text::{opt_text, texts};
use vstd::prelude::*;
use vstd::seq_lib::{to_multiset_build, to_multiset_insert};
use vstd::string::StringExecFns;

verus! {

/// What one worker process left behind.
#[derive(Debug, Clone)]
pub struct WorkerResult {
    /// The worker that produced the result.
    pub worker_id: usize,
    /// The exit code of the process; `-1` where there is none.
    pub exit_code: i32,
    /// What the process wrote to standard output.
    pub stdout: String,
    /// What the process wrote to standard error.
    pub stderr: String,
}

/// A worker's result in the language of contracts.
pub struct WorkerResultView {
    pub worker_id: usize,
    pub exit_code: i32,
    pub stdout: Seq<char>,
    pub stderr: Seq<char>,
}

impl View for WorkerResult {
    type V = WorkerResultView;

    open spec fn view(&self) -> WorkerResultView {
        WorkerResultView {
            worker_id: self.worker_id,
            exit_code: self.exit_code,
            stdout: self.stdout@,
            stderr: self.stderr@,
        }
    }
}

/// The results of a list in the language of contracts.
pub open spec fn results_view(results: Seq<WorkerResult>) -> Seq<WorkerResultView> {
    results.map_values(|r: WorkerResult| r@)
}

/// The command that one worker runs.
#[derive(Debug, Clone)]
pub struct WorkerCommand {
    pub worker_id: usize,
    pub program: String,
    /// The arguments: the preamble, the root directory, the node
    /// identifiers, the trailing arguments.
    pub args: Vec<String>,
    /// The directory in which the process runs.
    pub working_dir: Option<String>,
}

/// How the process of one worker ended.
#[derive(Debug, Clone)]
pub enum WorkerOutcome {
    /// The process ran; `exit_code` is `None` where a signal ended it.
    Exited { exit_code: Option<i32>, stdout: String, stderr: String },
    /// The process could not be started, with the reason.
    SpawnFailed(String),
    /// The thread that waited for the process panicked.
    Panicked,
}

/// The workers that were asked for, in the order in which they were asked
/// for.
pub struct WorkerPool {
    workers: Vec<WorkerCommand>,
}

/// The counts of a run in which every item ran in a process of its own.
#[derive(Debug, Clone)]
pub struct WorkStealingResult {
    pub total_tests: usize,
    /// Items whose process exited with 0.
    pub passed: usize,
    /// Items whose process exited with anything but 0 and 5.
    pub failed: usize,
    /// Items whose process exited with 5: nothing ran.
    pub skipped: usize,
    /// 0 where nothing failed, else the exit code of the first failure.
    pub exit_code: i32,
}

/// The arguments of a worker's command: the preamble, `--rootdir` and the
/// root where a working directory is given, the node identifiers, the
/// trailing arguments.
///
/// The host needs `--rootdir`, or it looks for its configuration in the
/// directories above: whoever runs the host gives the working directory,
/// as `spawn_batches` and `single_test_command` do. Without one the
/// command names no root and is fit for other programs only.
pub open spec fn command_args(
    initial_args: Seq<Seq<char>>,
    working_dir: Option<Seq<char>>,
    tests: Seq<Seq<char>>,
    pytest_args: Seq<Seq<char>>,
) -> Seq<Seq<char>> {
    match working_dir {
        Some(dir) => initial_args + seq!["--rootdir"@, dir] + tests + pytest_args,
        None => initial_args + tests + pytest_args,
    }
}

/// The result that stands for how the process of worker `worker_id` ended:
/// the exit code and the output of a process that ran, `-1` for a process
/// that a signal ended, that could not be started, or whose thread
/// panicked.
pub open spec fn result_of(worker_id: usize, outcome: WorkerOutcome) -> WorkerResultView {
    match outcome {
        WorkerOutcome::Exited { exit_code, stdout, stderr } => WorkerResultView {
            worker_id,
            exit_code: match exit_code {
                Some(code) => code,
                None => -1i32,
            },
            stdout: stdout@,
            stderr: stderr@,
        },
        WorkerOutcome::SpawnFailed(reason) => WorkerResultView {
            worker_id,
            exit_code: -1i32,
            stdout: Seq::empty(),
            stderr: "Failed to execute command: "@ + reason@,
        },
        WorkerOutcome::Panicked => WorkerResultView {
            worker_id,
            exit_code: -1i32,
            stdout: Seq::empty(),
            stderr: "Worker thread panicked"@,
        },
    }
}

/// The result that stands for how the process of a single item ended: as
/// for a worker, but a process that could not be started is reported as a
/// test that could not be executed.
pub open spec fn item_result_of(id: usize, outcome: WorkerOutcome) -> WorkerResultView {
    match outcome {
        WorkerOutcome::SpawnFailed(reason) => WorkerResultView {
            worker_id: id,
            exit_code: -1i32,
            stdout: Seq::empty(),
            stderr: "Failed to execute test: "@ + reason@,
        },
        _ => result_of(id, outcome),
    }
}

/// The result of worker number `i` of the pool: by its outcome, or as for a
/// panic where no outcome is given for it.
pub open spec fn raw_result(workers: Seq<WorkerCommand>, outcomes: Seq<WorkerOutcome>, i: int) -> WorkerResultView {
    if i < outcomes.len() {
        result_of(workers[i].worker_id, outcomes[i])
    } else {
        result_of(workers[i].worker_id, WorkerOutcome::Panicked)
    }
}

/// The results in the order in which the workers were asked for.
pub open spec fn raw_results(workers: Seq<WorkerCommand>, outcomes: Seq<WorkerOutcome>) -> Seq<
    WorkerResultView,
> {
    Seq::new(workers.len(), |i: int| raw_result(workers, outcomes, i))
}

/// Every result comes before every result with a greater worker id.
pub open spec fn ordered_by_id(results: Seq<WorkerResultView>) -> bool {
    forall|a: int, b: int|
        0 <= a < b < results.len() ==> (#[trigger] results[a]).worker_id <= (
        #[trigger] results[b]).worker_id
}

/// The first position at or after `i` whose worker id is greater than `id`.
pub open spec fn place_from(sorted: Seq<WorkerResultView>, id: usize, i: int) -> int
    decreases sorted.len() - i,
{
    if i < 0 || i >= sorted.len() {
        sorted.len() as int
    } else if sorted[i].worker_id <= id {
        place_from(sorted, id, i + 1)
    } else {
        i
    }
}

/// The first `n` results ordered by worker id; results of one worker id
/// keep the order in which they came.
pub open spec fn ordered_upto(raw: Seq<WorkerResultView>, n: int) -> Seq<WorkerResultView>
    decreases n,
{
    if n <= 0 {
        Seq::empty()
    } else {
        let before = ordered_upto(raw, n - 1);
        before.insert(place_from(before, raw[n - 1].worker_id, 0), raw[n - 1])
    }
}

/// The results ordered by worker id.
pub open spec fn ordered(raw: Seq<WorkerResultView>) -> Seq<WorkerResultView> {
    ordered_upto(raw, raw.len() as int)
}

/// Whether an exit code tells of a failure: it is neither 0, success, nor
/// 5, nothing ran.
pub open spec fn is_failure(code: i32) -> bool {
    code != 0 && code != 5
}

/// The first of the first `n` exit codes that tells of a failure, or 0.
pub open spec fn first_failure(codes: Seq<i32>, n: int) -> i32
    decreases n,
{
    if n <= 0 {
        0
    } else {
        let before = first_failure(codes, n - 1);
        if before != 0 {
            before
        } else if is_failure(codes[n - 1]) {
            codes[n - 1]
        } else {
            0
        }
    }
}

/// How many of the first `n` exit codes are `code`.
pub open spec fn count_code(codes: Seq<i32>, code: i32, n: int) -> nat
    decreases n,
{
    if n <= 0 {
        0
    } else if codes[n - 1] == code {
        count_code(codes, code, n - 1) + 1
    } else {
        count_code(codes, code, n - 1)
    }
}

/// How many of the first `n` exit codes tell of a failure.
pub open spec fn count_failures(codes: Seq<i32>, n: int) -> nat
    decreases n,
{
    if n <= 0 {
        0
    } else if is_failure(codes[n - 1]) {
        count_failures(codes, n - 1) + 1
    } else {
        count_failures(codes, n - 1)
    }
}

/// The exit codes of the results.
pub open spec fn exit_codes(results: Seq<WorkerResult>) -> Seq<i32> {
    results.map_values(|r: WorkerResult| r.exit_code)
}

/// Appends copies of `more` to `args`.
fn push_all(args: &mut Vec<String>, more: &Vec<String>)
    ensures
        texts(final(args)@) == texts(old(args)@) + texts(more@),
{
    let ghost start = texts(old(args)@);
    let mut i: usize = 0;
    assert(texts(args@) =~= start + texts(more@).take(0));
    while i < more.len()
        invariant
            i <= more.len(),
            texts(args@) == start + texts(more@).take(i as int),
        decreases more.len() - i,
    {
        let ghost before = texts(args@);
        args.push(more[i].clone());
        assert(texts(args@) =~= before.push(more@[i as int]@));
        assert(texts(more@).take(i + 1) =~= texts(more@).take(i as int).push(more@[i as int]@));
        i += 1;
    }
    assert(texts(more@).take(more.len() as int) =~= texts(more@));
}

/// The arguments of a worker's command. The root directory is passed so
/// that the host runner does not search upward for its configuration.
pub fn build_command_args(
    initial_args: &Vec<String>,
    working_dir: &Option<String>,
    tests: &Vec<String>,
    pytest_args: &Vec<String>,
) -> (args: Vec<String>)
    ensures
        texts(args@) == command_args(
            texts(initial_args@),
            opt_text(*working_dir),
            texts(tests@),
            texts(pytest_args@),
        ),
{
    let mut args: Vec<String> = Vec::new();
    assert(texts(args@) =~= Seq::<Seq<char>>::empty());
    push_all(&mut args, initial_args);
    match working_dir {
        Some(dir) => {
            let ghost before = texts(args@);
            args.push(String::from_str("--rootdir"));
            args.push(dir.clone());
            assert(texts(args@) =~= before + seq!["--rootdir"@, dir@]);
        },
        None => {},
    }
    push_all(&mut args, tests);
    push_all(&mut args, pytest_args);
    assert(texts(args@) =~= command_args(
        texts(initial_args@),
        opt_text(*working_dir),
        texts(tests@),
        texts(pytest_args@),
    ));
    args
}

/// The result that stands for how the process of a worker ended.
pub fn worker_result(worker_id: usize, outcome: &WorkerOutcome) -> (result: WorkerResult)
    ensures
        result@ == result_of(worker_id, *outcome),
{
    match outcome {
        WorkerOutcome::Exited { exit_code, stdout, stderr } => WorkerResult {
            worker_id,
            exit_code: match exit_code {
                Some(code) => *code,
                None => -1,
            },
            stdout: stdout.clone(),
            stderr: stderr.clone(),
        },
        WorkerOutcome::SpawnFailed(reason) => {
            let mut stderr = String::from_str("Failed to execute command: ");
            stderr.append(reason.as_str());
            WorkerResult { worker_id, exit_code: -1, stdout: String::new(), stderr }
        },
        WorkerOutcome::Panicked => WorkerResult {
            worker_id,
            exit_code: -1,
            stdout: String::new(),
            stderr: String::from_str("Worker thread panicked"),
        },
    }
}

/// The result that stands for how the process of the item number `id`
/// ended.
pub fn single_test_result(id: usize, outcome: &WorkerOutcome) -> (result: WorkerResult)
    ensures
        result@ == item_result_of(id, *outcome),
{
    match outcome {
        WorkerOutcome::SpawnFailed(reason) => {
            let mut stderr = String::from_str("Failed to execute test: ");
            stderr.append(reason.as_str());
            WorkerResult { worker_id: id, exit_code: -1, stdout: String::new(), stderr }
        },
        _ => worker_result(id, outcome),
    }
}

impl WorkerPool {
    /// The commands of the workers, in the order in which they were asked
    /// for.
    pub closed spec fn planned(self) -> Seq<WorkerCommand> {
        self.workers@
    }

    /// A pool without workers.
    pub fn new() -> (pool: WorkerPool)
        ensures
            pool.planned() == Seq::<WorkerCommand>::empty(),
    {
        WorkerPool { workers: Vec::new() }
    }

    /// Asks for a worker that runs `program` on the given tests. The worker
    /// runs in `working_dir` and is told of it as the root directory.
    pub fn spawn_worker(
        &mut self,
        worker_id: usize,
        program: String,
        initial_args: Vec<String>,
        tests: Vec<String>,
        pytest_args: Vec<String>,
        working_dir: Option<String>,
    )
        ensures
            final(self).planned().len() == old(self).planned().len() + 1,
            final(self).planned().drop_last() == old(self).planned(),
            final(self).planned().last().worker_id == worker_id,
            final(self).planned().last().program == program,
            final(self).planned().last().working_dir == working_dir,
            texts(final(self).planned().last().args@) == command_args(
                texts(initial_args@),
                opt_text(working_dir),
                texts(tests@),
                texts(pytest_args@),
            ),
    {
        let args = build_command_args(&initial_args, &working_dir, &tests, &pytest_args);
        self.workers.push(WorkerCommand { worker_id, program, args, working_dir });
        assert(self.planned().drop_last() =~= old(self).planned());
    }

    /// The number of workers asked for.
    pub fn worker_count(&self) -> (n: usize)
        ensures
            n == self.planned().len(),
    {
        self.workers.len()
    }

    /// The commands to run, in the order in which the workers were asked
    /// for.
    pub fn commands(&self) -> (commands: &Vec<WorkerCommand>)
        ensures
            commands@ == self.planned(),
    {
        &self.workers
    }

    /// The results of all workers, ordered by worker id.
    ///
    /// `outcomes[i]` tells how the process of the worker asked for as
    /// number `i` ended. A worker without an outcome counts as one whose
    /// thread panicked.
    pub fn wait_for_all(self, outcomes: &Vec<WorkerOutcome>) -> (results: Vec<WorkerResult>)
        ensures
            results_view(results@) == ordered(raw_results(self.planned(), outcomes@)),
    {
        let ghost raw = raw_results(self.planned(), outcomes@);
        let mut results: Vec<WorkerResult> = Vec::new();
        let mut i: usize = 0;
        assert(results_view(results@) =~= ordered_upto(raw, 0));
        while i < self.workers.len()
            invariant
                i <= self.workers.len(),
                raw == raw_results(self.planned(), outcomes@),
                results_view(results@) == ordered_upto(raw, i as int),
            decreases self.workers.len() - i,
        {
            let worker_id: usize = self.workers[i].worker_id;
            let result = if i < outcomes.len() {
                worker_result(worker_id, &outcomes[i])
            } else {
                worker_result(worker_id, &WorkerOutcome::Panicked)
            };
            assert(result@ == raw[i as int]);
            let ghost sorted = results_view(results@);
            let mut p: usize = 0;
            while p < results.len() && results[p].worker_id <= worker_id
                invariant
                    p <= results.len(),
                    sorted == results_view(results@),
                    place_from(sorted, worker_id, 0) == place_from(sorted, worker_id, p as int),
                decreases results.len() - p,
            {
                assert(sorted[p as int] == results@[p as int]@);
                p += 1;
            }
            proof {
                if p < results.len() {
                    assert(sorted[p as int] == results@[p as int]@);
                }
            }
            results.insert(p, result);
            assert(results_view(results@) =~= sorted.insert(p as int, result@));
            i += 1;
        }
        results
    }
}

impl Default for WorkerPool {
    fn default() -> (pool: WorkerPool)
        ensures
            pool.planned() == Seq::<WorkerCommand>::empty(),
    {
        WorkerPool::new()
    }
}

/// The exit status of a run: 0 where no worker failed, else the exit code
/// of the first worker that failed. An exit code of 5, nothing ran, is no
/// failure.
pub fn aggregate_exit_code(results: &Vec<WorkerResult>) -> (code: i32)
    ensures
        code == first_failure(exit_codes(results@), results@.len() as int),
{
    let ghost codes = exit_codes(results@);
    let mut code: i32 = 0;
    let mut i: usize = 0;
    while i < results.len()
        invariant
            i <= results.len(),
            codes == exit_codes(results@),
            code == first_failure(codes, i as int),
        decreases results.len() - i,
    {
        let this: i32 = results[i].exit_code;
        assert(codes[i as int] == this);
        if code == 0 && this != 0 && this != 5 {
            code = this;
        }
        i += 1;
    }
    code
}

/// The counts of a run in which every item ran in a process of its own:
/// exit code 0 is a pass, 5 a skip, anything else a failure, and the exit
/// status is that of the first failure.
pub fn summarize_work_stealing(codes: &Vec<i32>) -> (summary: WorkStealingResult)
    ensures
        summary.total_tests == codes@.len(),
        summary.passed == count_code(codes@, 0, codes@.len() as int),
        summary.skipped == count_code(codes@, 5, codes@.len() as int),
        summary.failed == count_failures(codes@, codes@.len() as int),
        summary.total_tests == summary.passed + summary.failed + summary.skipped,
        summary.exit_code == first_failure(codes@, codes@.len() as int),
{
    let mut passed: usize = 0;
    let mut failed: usize = 0;
    let mut skipped: usize = 0;
    let mut exit_code: i32 = 0;
    let mut i: usize = 0;
    while i < codes.len()
        invariant
            i <= codes.len(),
            passed == count_code(codes@, 0, i as int),
            skipped == count_code(codes@, 5, i as int),
            failed == count_failures(codes@, i as int),
            passed + failed + skipped == i,
            exit_code == first_failure(codes@, i as int),
        decreases codes.len() - i,
    {
        let code: i32 = codes[i];
        if code == 0 {
            passed += 1;
        } else if code == 5 {
            skipped += 1;
        } else {
            failed += 1;
            if exit_code == 0 {
                exit_code = code;
            }
        }
        i += 1;
    }
    WorkStealingResult { total_tests: codes.len(), passed, failed, skipped, exit_code }
}

/// The command that runs one item in a process of its own: the preamble,
/// the root directory, the item.
pub fn single_test_command(
    worker_id: usize,
    program: &str,
    initial_args: &Vec<String>,
    rootpath: &str,
    test_node: &str,
) -> (command: WorkerCommand)
    ensures
        command.worker_id == worker_id,
        command.program@ == program@,
        opt_text(command.working_dir) == Some(rootpath@),
        texts(command.args@) == texts(initial_args@) + seq!["--rootdir"@, rootpath@, test_node@],
{
    let mut args: Vec<String> = Vec::new();
    assert(texts(args@) =~= Seq::<Seq<char>>::empty());
    push_all(&mut args, initial_args);
    let ghost before = texts(args@);
    args.push(String::from_str("--rootdir"));
    args.push(String::from_str(rootpath));
    args.push(String::from_str(test_node));
    assert(texts(args@) =~= before + seq!["--rootdir"@, rootpath@, test_node@]);
    WorkerCommand {
        worker_id,
        program: String::from_str(program),
        args,
        working_dir: Some(String::from_str(rootpath)),
    }
}

/// Where the scan for a result's place stops: everything before the place
/// has a worker id that is not greater, and what stands at the place has a
/// greater one.
pub proof fn lemma_place_bounds(sorted: Seq<WorkerResultView>, id: usize, i: int)
    requires
        0 <= i <= sorted.len(),
    ensures
        i <= place_from(sorted, id, i) <= sorted.len(),
        forall|m: int| i <= m < place_from(sorted, id, i) ==> (#[trigger] sorted[m]).worker_id <= id,
        place_from(sorted, id, i) < sorted.len() ==> sorted[place_from(sorted, id, i)].worker_id
            > id,
    decreases sorted.len() - i,
{
    if i < sorted.len() && sorted[i].worker_id <= id {
        lemma_place_bounds(sorted, id, i + 1);
    }
}

/// The results that a pool returns are sorted by worker id, and they are
/// the results of the workers, each once.
pub proof fn law_results_sorted(raw: Seq<WorkerResultView>, n: int)
    requires
        0 <= n <= raw.len(),
    ensures
        ordered_by_id(ordered_upto(raw, n)),
        ordered_upto(raw, n).to_multiset() == raw.take(n).to_multiset(),
        ordered_upto(raw, n).len() == n,
    decreases n,
{
    if n == 0 {
        assert(raw.take(0) =~= Seq::<WorkerResultView>::empty());
    } else {
        law_results_sorted(raw, n - 1);
        let before = ordered_upto(raw, n - 1);
        let r = raw[n - 1];
        let p = place_from(before, r.worker_id, 0);
        lemma_place_bounds(before, r.worker_id, 0);
        let now = before.insert(p, r);
        assert forall|a: int, b: int| 0 <= a < b < now.len() implies (#[trigger] now[a]).worker_id
            <= (#[trigger] now[b]).worker_id by {
            if b < p {
                assert(now[a] == before[a] && now[b] == before[b]);
            } else if b == p {
                assert(now[a] == before[a]);
            } else if a < p {
                assert(now[a] == before[a] && now[b] == before[b - 1]);
            } else if a == p {
                assert(now[b] == before[b - 1]);
                if b - 1 > p {
                    assert(before[p].worker_id <= before[b - 1].worker_id);
                }
            } else {
                assert(now[a] == before[a - 1] && now[b] == before[b - 1]);
            }
        }
        to_multiset_insert(before, p, r);
        assert(raw.take(n) =~= raw.take(n - 1).push(r));
        to_multiset_build(raw.take(n - 1), r);
    }
}

} // verus!
