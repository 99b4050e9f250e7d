//! The error taxonomy: what can go wrong while collecting, scheduling and
//! running, and the message each error shows.

use crate::text::{decimal, push_decimal, push_signed_decimal, signed_decimal};
use vstd::prelude::*;
use vstd::std_specs::convert::FromSpecImpl;
use vstd::string::StringExecFns;

verus! {

/// `std::io::Error`, carried through as an opaque value.
#[verifier::external_type_specification]
#[verifier::external_body]
pub struct ExIoError(std::io::Error);

/// A failure while discovering tests.
#[derive(Debug, Clone)]
pub enum CollectionError {
    /// A source file could not be parsed.
    ParseError { path: String, line: Option<usize>, message: String },
    /// A module named by an import could not be used.
    ImportError { module: String, message: String },
    /// An item was skipped.
    SkipError { nodeid: String, reason: String },
    /// A path could not be read for lack of permission.
    PermissionDenied { path: String },
    /// A path does not exist.
    NotFound { path: String },
    /// A glob pattern is malformed.
    InvalidPattern { pattern: String, reason: String },
}

/// A failure while partitioning items over workers.
#[derive(Debug, Clone)]
pub enum SchedulerError {
    /// The worker count lies outside the bounds.
    InvalidWorkerCount { requested: usize, min: usize, max: usize },
    /// There was nothing to distribute.
    EmptyInput,
    /// A node identifier is malformed.
    InvalidTestPath { path: String, expected_format: String },
    /// No group could be derived for an item.
    GroupExtractionError { item: String, reason: String },
}

/// A failure of one worker process.
#[derive(Debug, Clone)]
pub enum WorkerError {
    /// The process could not be started.
    SpawnError { worker_id: usize, command: String, source: String },
    /// The process ended abnormally.
    CrashError { worker_id: usize, exit_code: Option<i32>, stderr: String },
    /// The worker could not be talked to.
    CommunicationError { worker_id: usize, message: String },
    /// The worker ran out of time.
    TimeoutError { worker_id: usize, duration_secs: u64 },
}

/// A failure in the configuration.
#[derive(Debug, Clone)]
pub enum ConfigError {
    /// A key holds a value that is not allowed.
    InvalidValue { key: String, value: String, expected: String },
    /// A required key is missing.
    MissingRequired { key: String },
    /// The configuration file could not be read.
    FileError { path: String, source: String },
    /// The configuration file is malformed.
    ParseError { path: String, line: usize, message: String },
}

/// An I/O failure with the operation that failed and the path it touched.
#[derive(Debug, Clone)]
pub struct IoError {
    /// The operation that failed.
    pub operation: String,
    /// The path involved, if any.
    pub path: Option<String>,
    /// The text of the underlying failure.
    pub source: String,
}

/// A failure while reading Python source.
#[derive(Debug, Clone)]
pub enum PythonError {
    /// The syntax tree could not be built.
    AstError { path: String, message: String },
    /// An import could not be resolved.
    ImportResolution { module: String, from_path: String },
    /// The source is not valid Python.
    SyntaxError { path: String, line: usize, column: Option<usize>, message: String },
}

/// Any failure of the library.
#[derive(Debug, Clone)]
pub enum RtestError {
    Collection(CollectionError),
    Scheduler(SchedulerError),
    Worker(WorkerError),
    Config(ConfigError),
    Io(IoError),
    Python(PythonError),
}

impl CollectionError {
    /// The message shown for this error.
    pub open spec fn message(self) -> Seq<char> {
        match self {
            CollectionError::ParseError { path, line: Some(line), message } => "Parse error in "@
                + path@ + " at line "@ + decimal(line as nat) + ": "@ + message@,
            CollectionError::ParseError { path, line: None, message } => "Parse error in "@
                + path@ + ": "@ + message@,
            CollectionError::ImportError { module, message } => "Import error in module '"@
                + module@ + "': "@ + message@,
            CollectionError::SkipError { nodeid, reason } => "Skipped "@ + nodeid@ + ": "@
                + reason@,
            CollectionError::PermissionDenied { path } => "Permission denied: "@ + path@,
            CollectionError::NotFound { path } => "Path not found: "@ + path@,
            CollectionError::InvalidPattern { pattern, reason } => "Invalid pattern '"@
                + pattern@ + "': "@ + reason@,
        }
    }

    /// Renders the message.
    pub fn to_string(&self) -> (s: String)
        ensures
            s@ == self.message(),
    {
        match self {
            CollectionError::ParseError { path, line, message } => {
                let mut s = String::from_str("Parse error in ");
                s.append(path.as_str());
                match line {
                    Some(n) => {
                        s.append(" at line ");
                        push_decimal(&mut s, *n as u64);
                    },
                    None => {},
                }
                s.append(": ");
                s.append(message.as_str());
                s
            },
            CollectionError::ImportError { module, message } => {
                let mut s = String::from_str("Import error in module '");
                s.append(module.as_str());
                s.append("': ");
                s.append(message.as_str());
                s
            },
            CollectionError::SkipError { nodeid, reason } => {
                let mut s = String::from_str("Skipped ");
                s.append(nodeid.as_str());
                s.append(": ");
                s.append(reason.as_str());
                s
            },
            CollectionError::PermissionDenied { path } => {
                let mut s = String::from_str("Permission denied: ");
                s.append(path.as_str());
                s
            },
            CollectionError::NotFound { path } => {
                let mut s = String::from_str("Path not found: ");
                s.append(path.as_str());
                s
            },
            CollectionError::InvalidPattern { pattern, reason } => {
                let mut s = String::from_str("Invalid pattern '");
                s.append(pattern.as_str());
                s.append("': ");
                s.append(reason.as_str());
                s
            },
        }
    }
}

impl SchedulerError {
    /// The message shown for this error.
    pub open spec fn message(self) -> Seq<char> {
        match self {
            SchedulerError::InvalidWorkerCount { requested, min, max } => "Invalid worker count "@
                + decimal(requested as nat) + ": must be between "@ + decimal(min as nat)
                + " and "@ + decimal(max as nat),
            SchedulerError::EmptyInput => "No items to distribute"@,
            SchedulerError::InvalidTestPath { path, expected_format } => "Invalid test path '"@
                + path@ + "': expected format "@ + expected_format@,
            SchedulerError::GroupExtractionError { item, reason } =>
                "Failed to extract group from '"@ + item@ + "': "@ + reason@,
        }
    }

    /// Renders the message.
    pub fn to_string(&self) -> (s: String)
        ensures
            s@ == self.message(),
    {
        match self {
            SchedulerError::InvalidWorkerCount { requested, min, max } => {
                let mut s = String::from_str("Invalid worker count ");
                push_decimal(&mut s, *requested as u64);
                s.append(": must be between ");
                push_decimal(&mut s, *min as u64);
                s.append(" and ");
                push_decimal(&mut s, *max as u64);
                s
            },
            SchedulerError::EmptyInput => String::from_str("No items to distribute"),
            SchedulerError::InvalidTestPath { path, expected_format } => {
                let mut s = String::from_str("Invalid test path '");
                s.append(path.as_str());
                s.append("': expected format ");
                s.append(expected_format.as_str());
                s
            },
            SchedulerError::GroupExtractionError { item, reason } => {
                let mut s = String::from_str("Failed to extract group from '");
                s.append(item.as_str());
                s.append("': ");
                s.append(reason.as_str());
                s
            },
        }
    }
}

impl WorkerError {
    /// The message shown for this error.
    pub open spec fn message(self) -> Seq<char> {
        match self {
            WorkerError::SpawnError { worker_id, command, source } => "Failed to spawn worker "@
                + decimal(worker_id as nat) + ": command '"@ + command@ + "' failed: "@
                + source@,
            WorkerError::CrashError { worker_id, exit_code: Some(code), stderr } => "Worker "@
                + decimal(worker_id as nat) + " crashed with exit code "@ + signed_decimal(
                code as int,
            ) + ": "@ + stderr@,
            WorkerError::CrashError { worker_id, exit_code: None, stderr } => "Worker "@
                + decimal(worker_id as nat) + " crashed: "@ + stderr@,
            WorkerError::CommunicationError { worker_id, message } =>
                "Communication error with worker "@ + decimal(worker_id as nat) + ": "@
                    + message@,
            WorkerError::TimeoutError { worker_id, duration_secs } => "Worker "@ + decimal(
                worker_id as nat,
            ) + " timed out after "@ + decimal(duration_secs as nat) + " seconds"@,
        }
    }

    /// Renders the message.
    pub fn to_string(&self) -> (s: String)
        ensures
            s@ == self.message(),
    {
        match self {
            WorkerError::SpawnError { worker_id, command, source } => {
                let mut s = String::from_str("Failed to spawn worker ");
                push_decimal(&mut s, *worker_id as u64);
                s.append(": command '");
                s.append(command.as_str());
                s.append("' failed: ");
                s.append(source.as_str());
                s
            },
            WorkerError::CrashError { worker_id, exit_code, stderr } => {
                let mut s = String::from_str("Worker ");
                push_decimal(&mut s, *worker_id as u64);
                match exit_code {
                    Some(code) => {
                        s.append(" crashed with exit code ");
                        push_signed_decimal(&mut s, *code as i64);
                        s.append(": ");
                    },
                    None => {
                        s.append(" crashed: ");
                    },
                }
                s.append(stderr.as_str());
                s
            },
            WorkerError::CommunicationError { worker_id, message } => {
                let mut s = String::from_str("Communication error with worker ");
                push_decimal(&mut s, *worker_id as u64);
                s.append(": ");
                s.append(message.as_str());
                s
            },
            WorkerError::TimeoutError { worker_id, duration_secs } => {
                let mut s = String::from_str("Worker ");
                push_decimal(&mut s, *worker_id as u64);
                s.append(" timed out after ");
                push_decimal(&mut s, *duration_secs);
                s.append(" seconds");
                s
            },
        }
    }
}

impl ConfigError {
    /// The message shown for this error.
    pub open spec fn message(self) -> Seq<char> {
        match self {
            ConfigError::InvalidValue { key, value, expected } => "Invalid value for '"@ + key@
                + "': '"@ + value@ + "', expected "@ + expected@,
            ConfigError::MissingRequired { key } => "Missing required configuration: '"@ + key@
                + "'"@,
            ConfigError::FileError { path, source } => "Error reading config file "@ + path@
                + ": "@ + source@,
            ConfigError::ParseError { path, line, message } => "Parse error in "@ + path@
                + " at line "@ + decimal(line as nat) + ": "@ + message@,
        }
    }

    /// Renders the message.
    pub fn to_string(&self) -> (s: String)
        ensures
            s@ == self.message(),
    {
        match self {
            ConfigError::InvalidValue { key, value, expected } => {
                let mut s = String::from_str("Invalid value for '");
                s.append(key.as_str());
                s.append("': '");
                s.append(value.as_str());
                s.append("', expected ");
                s.append(expected.as_str());
                s
            },
            ConfigError::MissingRequired { key } => {
                let mut s = String::from_str("Missing required configuration: '");
                s.append(key.as_str());
                s.append("'");
                s
            },
            ConfigError::FileError { path, source } => {
                let mut s = String::from_str("Error reading config file ");
                s.append(path.as_str());
                s.append(": ");
                s.append(source.as_str());
                s
            },
            ConfigError::ParseError { path, line, message } => {
                let mut s = String::from_str("Parse error in ");
                s.append(path.as_str());
                s.append(" at line ");
                push_decimal(&mut s, *line as u64);
                s.append(": ");
                s.append(message.as_str());
                s
            },
        }
    }
}

impl IoError {
    /// The message shown for this error.
    pub open spec fn message(self) -> Seq<char> {
        match self.path {
            Some(path) => self.operation@ + " failed for "@ + path@ + ": "@ + self.source@,
            None => self.operation@ + " failed: "@ + self.source@,
        }
    }

    /// Renders the message.
    pub fn to_string(&self) -> (s: String)
        ensures
            s@ == self.message(),
    {
        let mut s = self.operation.clone();
        match &self.path {
            Some(path) => {
                s.append(" failed for ");
                s.append(path.as_str());
                s.append(": ");
            },
            None => {
                s.append(" failed: ");
            },
        }
        s.append(self.source.as_str());
        s
    }
}

impl PythonError {
    /// The message shown for this error.
    pub open spec fn message(self) -> Seq<char> {
        match self {
            PythonError::AstError { path, message } => "AST error in "@ + path@ + ": "@
                + message@,
            PythonError::ImportResolution { module, from_path } => "Cannot resolve import '"@
                + module@ + "' from "@ + from_path@,
            PythonError::SyntaxError { path, line, column: Some(col), message } =>
                "Syntax error in "@ + path@ + " at "@ + decimal(line as nat) + ":"@ + decimal(
                    col as nat,
                ) + ": "@ + message@,
            PythonError::SyntaxError { path, line, column: None, message } =>
                "Syntax error in "@ + path@ + " at line "@ + decimal(line as nat) + ": "@
                    + message@,
        }
    }

    /// Renders the message.
    pub fn to_string(&self) -> (s: String)
        ensures
            s@ == self.message(),
    {
        match self {
            PythonError::AstError { path, message } => {
                let mut s = String::from_str("AST error in ");
                s.append(path.as_str());
                s.append(": ");
                s.append(message.as_str());
                s
            },
            PythonError::ImportResolution { module, from_path } => {
                let mut s = String::from_str("Cannot resolve import '");
                s.append(module.as_str());
                s.append("' from ");
                s.append(from_path.as_str());
                s
            },
            PythonError::SyntaxError { path, line, column, message } => {
                let mut s = String::from_str("Syntax error in ");
                s.append(path.as_str());
                match column {
                    Some(col) => {
                        s.append(" at ");
                        push_decimal(&mut s, *line as u64);
                        s.append(":");
                        push_decimal(&mut s, *col as u64);
                    },
                    None => {
                        s.append(" at line ");
                        push_decimal(&mut s, *line as u64);
                    },
                }
                s.append(": ");
                s.append(message.as_str());
                s
            },
        }
    }
}

impl RtestError {
    /// The message shown for this error: the component's name before the
    /// component's own message.
    pub open spec fn message(self) -> Seq<char> {
        match self {
            RtestError::Collection(e) => "Collection error: "@ + e.message(),
            RtestError::Scheduler(e) => "Scheduler error: "@ + e.message(),
            RtestError::Worker(e) => "Worker error: "@ + e.message(),
            RtestError::Config(e) => "Configuration error: "@ + e.message(),
            RtestError::Io(e) => "I/O error: "@ + e.message(),
            RtestError::Python(e) => "Python error: "@ + e.message(),
        }
    }

    /// Renders the message.
    pub fn to_string(&self) -> (s: String)
        ensures
            s@ == self.message(),
    {
        match self {
            RtestError::Collection(e) => {
                let mut s = String::from_str("Collection error: ");
                s.append(e.to_string().as_str());
                s
            },
            RtestError::Scheduler(e) => {
                let mut s = String::from_str("Scheduler error: ");
                s.append(e.to_string().as_str());
                s
            },
            RtestError::Worker(e) => {
                let mut s = String::from_str("Worker error: ");
                s.append(e.to_string().as_str());
                s
            },
            RtestError::Config(e) => {
                let mut s = String::from_str("Configuration error: ");
                s.append(e.to_string().as_str());
                s
            },
            RtestError::Io(e) => {
                let mut s = String::from_str("I/O error: ");
                s.append(e.to_string().as_str());
                s
            },
            RtestError::Python(e) => {
                let mut s = String::from_str("Python error: ");
                s.append(e.to_string().as_str());
                s
            },
        }
    }
}

/// An I/O error with the operation that failed and the path it touched. The
/// text of `source` is taken as the platform gives it.
pub fn io_error(operation: &str, path: Option<String>, source: std::io::Error) -> (e: IoError)
    ensures
        e.operation@ == operation@,
        e.path == path,
{
    IoError { operation: String::from_str(operation), path, source: source.to_string() }
}

impl From<std::io::Error> for RtestError {
    /// An I/O failure without a path. The text of the failure is taken as
    /// the platform gives it.
    fn from(err: std::io::Error) -> (r: RtestError)
        ensures
            r is Io,
            r->Io_0.operation@ == "I/O operation"@,
            r->Io_0.path is None,
    {
        RtestError::Io(io_error("I/O operation", None, err))
    }
}

impl FromSpecImpl<std::io::Error> for RtestError {
    open spec fn obeys_from_spec() -> bool {
        false
    }

    open spec fn from_spec(err: std::io::Error) -> RtestError {
        arbitrary()
    }
}

impl From<CollectionError> for RtestError {
    fn from(err: CollectionError) -> (r: RtestError) {
        RtestError::Collection(err)
    }
}

impl FromSpecImpl<CollectionError> for RtestError {
    open spec fn obeys_from_spec() -> bool {
        true
    }

    open spec fn from_spec(err: CollectionError) -> RtestError {
        RtestError::Collection(err)
    }
}

impl From<SchedulerError> for RtestError {
    fn from(err: SchedulerError) -> (r: RtestError) {
        RtestError::Scheduler(err)
    }
}

impl FromSpecImpl<SchedulerError> for RtestError {
    open spec fn obeys_from_spec() -> bool {
        true
    }

    open spec fn from_spec(err: SchedulerError) -> RtestError {
        RtestError::Scheduler(err)
    }
}

impl From<WorkerError> for RtestError {
    fn from(err: WorkerError) -> (r: RtestError) {
        RtestError::Worker(err)
    }
}

impl FromSpecImpl<WorkerError> for RtestError {
    open spec fn obeys_from_spec() -> bool {
        true
    }

    open spec fn from_spec(err: WorkerError) -> RtestError {
        RtestError::Worker(err)
    }
}

impl From<ConfigError> for RtestError {
    fn from(err: ConfigError) -> (r: RtestError) {
        RtestError::Config(err)
    }
}

impl FromSpecImpl<ConfigError> for RtestError {
    open spec fn obeys_from_spec() -> bool {
        true
    }

    open spec fn from_spec(err: ConfigError) -> RtestError {
        RtestError::Config(err)
    }
}

impl From<PythonError> for RtestError {
    fn from(err: PythonError) -> (r: RtestError) {
        RtestError::Python(err)
    }
}

impl FromSpecImpl<PythonError> for RtestError {
    open spec fn obeys_from_spec() -> bool {
        true
    }

    open spec fn from_spec(err: PythonError) -> RtestError {
        RtestError::Python(err)
    }
}

impl From<IoError> for RtestError {
    fn from(err: IoError) -> (r: RtestError) {
        RtestError::Io(err)
    }
}

impl FromSpecImpl<IoError> for RtestError {
    open spec fn obeys_from_spec() -> bool {
        true
    }

    open spec fn from_spec(err: IoError) -> RtestError {
        RtestError::Io(err)
    }
}

/// Adds context to the error of a result. The context is advisory: the error
/// itself is handed on unchanged.
pub trait ErrorContext<T> {
    /// What the result holds once its error is seen as an `RtestError`.
    spec fn lifted(self) -> Result<T, RtestError> where Self: Sized;

    /// Attaches `msg` as context.
    fn context(self, msg: &str) -> (r: Result<T, RtestError>) where Self: Sized
        ensures
            r == self.lifted(),
    ;

    /// Attaches the context that `f` makes. The context is made only where
    /// there is an error to attach it to.
    fn with_context<F: FnOnce() -> String>(self, f: F) -> (r: Result<T, RtestError>) where
        Self: Sized,

        requires
            f.requires(()),
        ensures
            r == self.lifted(),
    ;
}

impl<T> ErrorContext<T> for Result<T, RtestError> {
    open spec fn lifted(self) -> Result<T, RtestError> {
        self
    }

    fn context(self, msg: &str) -> (r: Result<T, RtestError>) {
        self
    }

    fn with_context<F: FnOnce() -> String>(self, f: F) -> (r: Result<T, RtestError>) {
        match self {
            Ok(v) => Ok(v),
            Err(e) => {
                let _context = f();
                Err(e)
            },
        }
    }
}

impl<T> ErrorContext<T> for Result<T, SchedulerError> {
    open spec fn lifted(self) -> Result<T, RtestError> {
        match self {
            Ok(v) => Ok(v),
            Err(e) => Err(RtestError::Scheduler(e)),
        }
    }

    fn context(self, msg: &str) -> (r: Result<T, RtestError>) {
        match self {
            Ok(v) => Ok(v),
            Err(e) => Err(RtestError::Scheduler(e)),
        }
    }

    fn with_context<F: FnOnce() -> String>(self, f: F) -> (r: Result<T, RtestError>) {
        match self {
            Ok(v) => Ok(v),
            Err(e) => {
                let _context = f();
                Err(RtestError::Scheduler(e))
            },
        }
    }
}

impl<T> ErrorContext<T> for Result<T, CollectionError> {
    open spec fn lifted(self) -> Result<T, RtestError> {
        match self {
            Ok(v) => Ok(v),
            Err(e) => Err(RtestError::Collection(e)),
        }
    }

    fn context(self, msg: &str) -> (r: Result<T, RtestError>) {
        match self {
            Ok(v) => Ok(v),
            Err(e) => Err(RtestError::Collection(e)),
        }
    }

    fn with_context<F: FnOnce() -> String>(self, f: F) -> (r: Result<T, RtestError>) {
        match self {
            Ok(v) => Ok(v),
            Err(e) => {
                let _context = f();
                Err(RtestError::Collection(e))
            },
        }
    }
}

impl<T> ErrorContext<T> for Result<T, WorkerError> {
    open spec fn lifted(self) -> Result<T, RtestError> {
        match self {
            Ok(v) => Ok(v),
            Err(e) => Err(RtestError::Worker(e)),
        }
    }

    fn context(self, msg: &str) -> (r: Result<T, RtestError>) {
        match self {
            Ok(v) => Ok(v),
            Err(e) => Err(RtestError::Worker(e)),
        }
    }

    fn with_context<F: FnOnce() -> String>(self, f: F) -> (r: Result<T, RtestError>) {
        match self {
            Ok(v) => Ok(v),
            Err(e) => {
                let _context = f();
                Err(RtestError::Worker(e))
            },
        }
    }
}

} // verus!
