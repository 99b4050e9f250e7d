//! What a collection step reports: its error, its outcome, its warnings.

use crate::text::{decimal, push_decimal};
use vstd::prelude::*;
use vstd::string::StringExecFns;

verus! {

/// Why a node could not be collected.
#[derive(Debug, Clone)]
pub enum CollectionError {
    /// The file or directory could not be read.
    IoError(String),
    /// The source is not valid Python.
    ParseError(String),
    /// A module that the file builds on could not be used.
    ImportError(String),
    /// The node was skipped.
    SkipError(String),
}

/// The outcome of collecting one node.
#[derive(Debug, Clone, Copy, PartialEq, Eq, Structural)]
pub enum CollectionOutcome {
    Passed,
    Failed,
    Skipped,
}

/// Something noteworthy that did not stop collection.
#[derive(Debug, Clone)]
pub struct CollectionWarning {
    pub file_path: String,
    pub line: usize,
    pub message: String,
}

impl CollectionError {
    /// The message shown for this error.
    pub open spec fn message(self) -> Seq<char> {
        match self {
            CollectionError::IoError(e) => "IO error: "@ + e@,
            CollectionError::ParseError(e) => "Parse error: "@ + e@,
            CollectionError::ImportError(e) => "Import error: "@ + e@,
            CollectionError::SkipError(e) => "Skip: "@ + e@,
        }
    }

    /// The line that the report shows below the node: `E   ` and what went
    /// wrong.
    pub open spec fn report_line(self) -> Seq<char> {
        match self {
            CollectionError::ParseError(e) => "E   "@ + e@,
            CollectionError::ImportError(e) => "E   ImportError: "@ + e@,
            CollectionError::IoError(e) => "E   IO Error: "@ + e@,
            CollectionError::SkipError(e) => "E   Skipped: "@ + e@,
        }
    }

    /// Renders the message.
    pub fn to_string(&self) -> (s: String)
        ensures
            s@ == self.message(),
    {
        match self {
            CollectionError::IoError(e) => {
                let mut s = String::from_str("IO error: ");
                s.append(e.as_str());
                s
            },
            CollectionError::ParseError(e) => {
                let mut s = String::from_str("Parse error: ");
                s.append(e.as_str());
                s
            },
            CollectionError::ImportError(e) => {
                let mut s = String::from_str("Import error: ");
                s.append(e.as_str());
                s
            },
            CollectionError::SkipError(e) => {
                let mut s = String::from_str("Skip: ");
                s.append(e.as_str());
                s
            },
        }
    }

    /// Renders the line that the report shows below the node.
    pub fn to_report_line(&self) -> (s: String)
        ensures
            s@ == self.report_line(),
    {
        match self {
            CollectionError::ParseError(e) => {
                let mut s = String::from_str("E   ");
                s.append(e.as_str());
                s
            },
            CollectionError::ImportError(e) => {
                let mut s = String::from_str("E   ImportError: ");
                s.append(e.as_str());
                s
            },
            CollectionError::IoError(e) => {
                let mut s = String::from_str("E   IO Error: ");
                s.append(e.as_str());
                s
            },
            CollectionError::SkipError(e) => {
                let mut s = String::from_str("E   Skipped: ");
                s.append(e.as_str());
                s
            },
        }
    }

    /// A copy with the same text.
    pub fn duplicate(&self) -> (r: CollectionError)
        ensures
            r == *self,
    {
        match self {
            CollectionError::IoError(e) => CollectionError::IoError(e.clone()),
            CollectionError::ParseError(e) => CollectionError::ParseError(e.clone()),
            CollectionError::ImportError(e) => CollectionError::ImportError(e.clone()),
            CollectionError::SkipError(e) => CollectionError::SkipError(e.clone()),
        }
    }
}

impl CollectionWarning {
    /// The line shown for this warning: the file, the line and the message.
    pub open spec fn message(self) -> Seq<char> {
        self.file_path@ + ":"@ + decimal(self.line as nat) + ": "@ + self.message@
    }

    /// Renders the line shown for this warning.
    pub fn to_string(&self) -> (s: String)
        ensures
            s@ == self.message(),
    {
        let mut s = self.file_path.clone();
        s.append(":");
        push_decimal(&mut s, self.line as u64);
        s.append(": ");
        s.append(self.message.as_str());
        s
    }
}

} // verus!
