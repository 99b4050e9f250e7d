//! The command by which the host runner is started.

use crate::text::{str_eq, texts};
use vstd::prelude::*;
use vstd::string::StringExecFns;

verus! {

/// The program and the leading arguments that start the host runner, and
/// the environment of its processes.
#[derive(Debug, Clone)]
pub struct PytestRunner {
    pub program: String,
    pub initial_args: Vec<String>,
    pub env_vars: Vec<String>,
}

/// Whether the host runner is started through this package manager.
pub open spec fn is_package_manager(name: Seq<char>) -> bool {
    name == "uv"@ || name == "pipenv"@ || name == "poetry"@
}

/// The program that starts the host runner.
pub open spec fn runner_program(package_manager: Seq<char>) -> Seq<char> {
    if is_package_manager(package_manager) {
        package_manager
    } else {
        "python3"@
    }
}

/// The leading arguments that start the host runner.
pub open spec fn runner_args(package_manager: Seq<char>) -> Seq<Seq<char>> {
    if is_package_manager(package_manager) {
        seq!["run"@, "python"@, "-m"@, "pytest"@]
    } else {
        seq!["-m"@, "pytest"@]
    }
}

impl PytestRunner {
    /// The runner for a package manager: through `uv`, `pipenv` or
    /// `poetry` the interpreter is started with `run python`, otherwise
    /// `python3` is started directly.
    pub fn new(package_manager: String, env_vars: Vec<String>) -> (runner: PytestRunner)
        ensures
            runner.program@ == runner_program(package_manager@),
            texts(runner.initial_args@) == runner_args(package_manager@),
            runner.env_vars == env_vars,
    {
        let managed: bool = str_eq(package_manager.as_str(), "uv") || str_eq(
            package_manager.as_str(),
            "pipenv",
        ) || str_eq(package_manager.as_str(), "poetry");
        let mut initial_args: Vec<String> = Vec::new();
        if managed {
            initial_args.push(String::from_str("run"));
            initial_args.push(String::from_str("python"));
        }
        initial_args.push(String::from_str("-m"));
        initial_args.push(String::from_str("pytest"));
        assert(texts(initial_args@) =~= runner_args(package_manager@));
        let program: String = if managed {
            package_manager
        } else {
            String::from_str("python3")
        };
        PytestRunner { program, initial_args, env_vars }
    }

    /// The runner that starts the given interpreter directly.
    pub fn from_interpreter(program: String) -> (runner: PytestRunner)
        ensures
            runner.program == program,
            texts(runner.initial_args@) == seq!["-m"@, "pytest"@],
            runner.env_vars@.len() == 0,
    {
        let mut initial_args: Vec<String> = Vec::new();
        initial_args.push(String::from_str("-m"));
        initial_args.push(String::from_str("pytest"));
        assert(texts(initial_args@) =~= seq!["-m"@, "pytest"@]);
        PytestRunner { program, initial_args, env_vars: Vec::new() }
    }
}

} // verus!
