//! The command line as plain values, and the rule that turns the worker
//! options into a worker count.

use crate::cpus::{logical_cpus, physical_cpus};
use crate::scheduler::DistributionMode;
use crate::text::{str_eq, to_chars};
use vstd::prelude::*;
use vstd::string::StringExecFns;

verus! {

/// The options of one invocation.
#[derive(Debug, Clone)]
pub struct Args {
    /// The package manager through which the host runner is started.
    pub package_manager: String,
    /// Environment variables for the workers, as `KEY=VALUE`.
    pub env: Vec<String>,
    /// The worker count as written: a number, `auto` or `logical`.
    pub numprocesses: Option<String>,
    /// The cap on the worker count.
    pub maxprocesses: Option<usize>,
    /// The distribution mode as written.
    pub dist: String,
    /// Only collect, run nothing.
    pub collect_only: bool,
    /// Where to write the list of uncertain files.
    pub emit_uncertain_files: Option<String>,
    /// Count every file with parametrized tests as uncertain.
    pub all_parametrized_uncertain: bool,
    /// The files and node identifiers to collect from.
    pub files: Vec<String>,
    /// Arguments handed on to the host runner.
    pub pytest_args: Vec<String>,
}

/// The worker count as asked for.
#[derive(Debug, Clone, Copy, PartialEq, Eq, Structural)]
pub enum NumProcesses {
    /// One worker for each physical core.
    Auto,
    /// One worker for each logical processor.
    Logical,
    /// This many workers.
    Count(usize),
}

/// The value of a decimal digit, or `-1` for any other character.
pub open spec fn digit_value(c: char) -> int {
    if c == '0' {
        0
    } else if c == '1' {
        1
    } else if c == '2' {
        2
    } else if c == '3' {
        3
    } else if c == '4' {
        4
    } else if c == '5' {
        5
    } else if c == '6' {
        6
    } else if c == '7' {
        7
    } else if c == '8' {
        8
    } else if c == '9' {
        9
    } else {
        -1
    }
}

/// Whether `s[from..n]` holds decimal digits only.
pub open spec fn all_digits(s: Seq<char>, from: int, n: int) -> bool {
    forall|i: int| from <= i < n ==> digit_value(#[trigger] s[i]) >= 0
}

/// The number that the digits `s[from..n]` write.
pub open spec fn number_upto(s: Seq<char>, from: int, n: int) -> int
    decreases n - from,
{
    if n <= from {
        0
    } else {
        number_upto(s, from, n - 1) * 10 + digit_value(s[n - 1])
    }
}

/// Where the digits of a count start: behind a plus sign, if there is one.
pub open spec fn digits_start(s: Seq<char>) -> int {
    if s.len() > 0 && s[0] == '+' {
        1
    } else {
        0
    }
}

/// The count that a text writes: a non-empty run of decimal digits, with or
/// without a plus sign before it, whose value fits the machine's word.
pub open spec fn written_count(s: Seq<char>) -> Option<usize> {
    let from = digits_start(s);
    if from < s.len() && all_digits(s, from, s.len() as int) && number_upto(
        s,
        from,
        s.len() as int,
    ) <= usize::MAX {
        Some(number_upto(s, from, s.len() as int) as usize)
    } else {
        None
    }
}

/// The worker count that a text asks for: `auto`, `logical`, or a count,
/// where any text that writes no count asks for one worker.
pub open spec fn asked_processes(s: Seq<char>) -> NumProcesses {
    if s == "auto"@ {
        NumProcesses::Auto
    } else if s == "logical"@ {
        NumProcesses::Logical
    } else {
        match written_count(s) {
            Some(n) => NumProcesses::Count(n),
            None => NumProcesses::Count(1),
        }
    }
}

/// The worker count before the cap: one worker where none was asked for,
/// else the number of cores or processors or the count given.
pub open spec fn uncapped_workers(requested: Option<NumProcesses>, physical: usize, logical: usize) -> usize {
    match requested {
        None => 1,
        Some(NumProcesses::Auto) => physical,
        Some(NumProcesses::Logical) => logical,
        Some(NumProcesses::Count(n)) => n,
    }
}

/// The worker count: the count asked for, capped where a cap is set, and
/// at least 1 where a count was asked for at all.
pub open spec fn worker_count_rule(
    requested: Option<NumProcesses>,
    max_cap: Option<usize>,
    physical: usize,
    logical: usize,
) -> usize {
    let base = uncapped_workers(requested, physical, logical);
    let capped = match max_cap {
        Some(cap) => if cap < base {
            cap
        } else {
            base
        },
        None => base,
    };
    if requested is Some && capped < 1 {
        1
    } else {
        capped
    }
}

fn digit_of(c: char) -> (d: Option<u8>)
    ensures
        match d {
            Some(v) => v as int == digit_value(c) && v < 10,
            None => digit_value(c) == -1,
        },
{
    if c == '0' {
        Some(0)
    } else if c == '1' {
        Some(1)
    } else if c == '2' {
        Some(2)
    } else if c == '3' {
        Some(3)
    } else if c == '4' {
        Some(4)
    } else if c == '5' {
        Some(5)
    } else if c == '6' {
        Some(6)
    } else if c == '7' {
        Some(7)
    } else if c == '8' {
        Some(8)
    } else if c == '9' {
        Some(9)
    } else {
        None
    }
}

/// The number written by digits grows with every digit.
pub proof fn lemma_number_grows(s: Seq<char>, from: int, n: int, m: int)
    requires
        from <= n <= m <= s.len(),
        0 <= from,
        all_digits(s, from, m),
    ensures
        0 <= number_upto(s, from, n) <= number_upto(s, from, m),
    decreases m - from,
{
    if n < m {
        lemma_number_grows(s, from, n, m - 1);
        assert(digit_value(s[m - 1]) >= 0);
    } else if from < n {
        lemma_number_grows(s, from, n - 1, n - 1);
        assert(digit_value(s[n - 1]) >= 0);
    }
}

/// The count that a text writes, if it writes one.
pub fn parse_count(s: &str) -> (r: Option<usize>)
    ensures
        r == written_count(s@),
{
    let chars = to_chars(s);
    let from: usize = if chars.len() > 0 && chars[0] == '+' {
        1
    } else {
        0
    };
    if from >= chars.len() {
        return None;
    }
    let mut value: usize = 0;
    let mut i: usize = from;
    while i < chars.len()
        invariant
            from <= i <= chars.len(),
            from == digits_start(chars@),
            chars@ == s@,
            all_digits(chars@, from as int, i as int),
            value == number_upto(chars@, from as int, i as int),
        decreases chars.len() - i,
    {
        match digit_of(chars[i]) {
            None => {
                assert(!all_digits(chars@, from as int, chars@.len() as int));
                return None;
            },
            Some(d) => {
                if value > (usize::MAX - d as usize) / 10 {
                    proof {
                        // the number is too large already, and further digits
                        // only make it larger
                        if all_digits(chars@, from as int, chars@.len() as int) {
                            assert(number_upto(chars@, from as int, i + 1) > usize::MAX);
                            lemma_number_grows(
                                chars@,
                                from as int,
                                i + 1,
                                chars@.len() as int,
                            );
                        }
                    }
                    return None;
                }
                value = value * 10 + d as usize;
            },
        }
        i += 1;
    }
    Some(value)
}

impl Args {
    /// The options that hold where the command line gives none.
    pub fn defaults() -> (args: Args)
        ensures
            args.package_manager@ == "python"@,
            args.env@.len() == 0,
            args.numprocesses is None,
            args.maxprocesses is None,
            args.dist@ == "load"@,
            !args.collect_only,
            args.emit_uncertain_files is None,
            !args.all_parametrized_uncertain,
            args.files@.len() == 0,
            args.pytest_args@.len() == 0,
    {
        Args {
            package_manager: String::from_str("python"),
            env: Vec::new(),
            numprocesses: None,
            maxprocesses: None,
            dist: String::from_str("load"),
            collect_only: false,
            emit_uncertain_files: None,
            all_parametrized_uncertain: false,
            files: Vec::new(),
            pytest_args: Vec::new(),
        }
    }

    /// The worker count that the command line asks for, if it asks for one.
    pub fn get_num_processes(&self) -> (r: Option<NumProcesses>)
        ensures
            r == (match self.numprocesses {
                Some(text) => Some(asked_processes(text@)),
                None => None,
            }),
    {
        match &self.numprocesses {
            None => None,
            Some(text) => {
                if str_eq(text.as_str(), "auto") {
                    Some(NumProcesses::Auto)
                } else if str_eq(text.as_str(), "logical") {
                    Some(NumProcesses::Logical)
                } else {
                    match parse_count(text.as_str()) {
                        Some(n) => Some(NumProcesses::Count(n)),
                        None => Some(NumProcesses::Count(1)),
                    }
                }
            },
        }
    }

    /// The message for a distribution mode that does not exist.
    pub open spec fn unknown_dist_message(self) -> Seq<char> {
        "Distribution mode '"@ + self.dist@
            + "' is not supported. Supported modes: load, loadscope, loadfile, loadgroup, worksteal, no"@
    }

    /// Checks that the distribution mode is one of those that exist.
    pub fn validate_dist(&self) -> (r: Result<(), String>)
        ensures
            match r {
                Ok(_) => exists|mode: DistributionMode| self.dist@ == mode.name(),
                Err(message) => {
                    &&& forall|mode: DistributionMode| self.dist@ != mode.name()
                    &&& message@ == self.unknown_dist_message()
                },
            },
    {
        match DistributionMode::parse(self.dist.as_str()) {
            Ok(mode) => {
                assert(self.dist@ == mode.name());
                Ok(())
            },
            Err(_) => {
                let mut message = String::from_str("Distribution mode '");
                message.append(self.dist.as_str());
                message.append(
                    "' is not supported. Supported modes: load, loadscope, loadfile, loadgroup, worksteal, no",
                );
                Err(message)
            },
        }
    }
}

/// The worker count on a machine with `physical` cores and `logical`
/// processors.
pub fn worker_count_for(
    requested: Option<NumProcesses>,
    max_cap: Option<usize>,
    physical: usize,
    logical: usize,
) -> (count: usize)
    ensures
        count == worker_count_rule(requested, max_cap, physical, logical),
{
    let base: usize = match requested {
        None => 1,
        Some(NumProcesses::Auto) => physical,
        Some(NumProcesses::Logical) => logical,
        Some(NumProcesses::Count(n)) => n,
    };
    let capped: usize = match max_cap {
        Some(cap) => if cap < base {
            cap
        } else {
            base
        },
        None => base,
    };
    if requested.is_some() && capped < 1 {
        1
    } else {
        capped
    }
}

/// The worker count on this machine: the rule applied to the number of
/// cores and processors that the operating system reports.
pub fn determine_worker_count(requested: Option<NumProcesses>, max_cap: Option<usize>) -> (count:
    usize)
    ensures
        exists|physical: usize, logical: usize|
            physical >= 1 && logical >= 1 && count == #[trigger] worker_count_rule(
                requested,
                max_cap,
                physical,
                logical,
            ),
        requested is Some ==> count >= 1,
        requested is None && max_cap is None ==> count == 1,
        (requested matches Some(NumProcesses::Count(n)) && n >= 1 && max_cap is None) ==> count
            == requested->Some_0->Count_0,
{
    let physical: usize = physical_cpus();
    let logical: usize = logical_cpus();
    let count = worker_count_for(requested, max_cap, physical, logical);
    assert(count == worker_count_rule(requested, max_cap, physical, logical));
    count
}

} // verus!
