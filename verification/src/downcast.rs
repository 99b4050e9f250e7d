//! Access to a collector as the variant that it is expected to be.

use crate::collection::types::{Collector, CollectorNode, Function};
use crate::error::{CollectionError, RtestError};
use vstd::prelude::*;
use vstd::string::StringExecFns;

verus! {

/// A collector was not of the kind that was expected.
#[derive(Debug, Clone)]
pub struct DowncastError {
    /// The kind that was expected.
    pub expected_type: String,
    /// The kind that was found.
    pub actual_type: String,
    /// Where the collector was looked at.
    pub context: String,
}

impl DowncastError {
    /// The message shown for this error.
    pub open spec fn message(self) -> Seq<char> {
        "Downcast failed: expected "@ + self.expected_type@ + ", got "@ + self.actual_type@
            + " in context: "@ + self.context@
    }

    /// Renders the message.
    pub fn to_string(&self) -> (s: String)
        ensures
            s@ == self.message(),
    {
        let mut s = String::from_str("Downcast failed: expected ");
        s.append(self.expected_type.as_str());
        s.append(", got ");
        s.append(self.actual_type.as_str());
        s.append(" in context: ");
        s.append(self.context.as_str());
        s
    }
}

/// The message for a collector that is no test item.
pub open spec fn not_a_function_message(nodeid: Seq<char>) -> Seq<char> {
    "Expected Function collector but got different type for nodeid: "@ + nodeid
}

/// Access to a collector as a test item.
pub trait CollectorDowncast {
    /// The test item that the collector is, if it is one.
    spec fn item(&self) -> Option<Function>;

    /// What identifies the collector in an error.
    spec fn described(&self) -> (Seq<char>, Seq<char>);

    /// The collector as a test item, or the error that it is none.
    fn as_function(&self) -> (r: Result<&Function, RtestError>)
        ensures
            match r {
                Ok(f) => self.item() == Some(*f),
                Err(e) => {
                    &&& self.item() is None
                    &&& e is Collection
                    &&& e->Collection_0 is ParseError
                    &&& e->Collection_0->ParseError_path@ == self.described().0
                    &&& e->Collection_0->ParseError_line is None
                    &&& e->Collection_0->ParseError_message@ == not_a_function_message(
                        self.described().1,
                    )
                },
            },
    ;

    /// The collector as a test item, if it is one.
    fn try_as_function(&self) -> (r: Option<&Function>)
        ensures
            match r {
                Some(f) => self.item() == Some(*f),
                None => self.item() is None,
            },
    ;
}

impl CollectorDowncast for CollectorNode {
    open spec fn item(&self) -> Option<Function> {
        match self {
            CollectorNode::Function(f) => Some(*f),
            _ => None,
        }
    }

    open spec fn described(&self) -> (Seq<char>, Seq<char>) {
        (self.path_view(), self.nodeid_view())
    }

    fn as_function(&self) -> (r: Result<&Function, RtestError>) {
        match self {
            CollectorNode::Function(f) => Ok(f),
            _ => {
                let mut message = String::from_str(
                    "Expected Function collector but got different type for nodeid: ",
                );
                message.append(self.nodeid());
                Err(
                    RtestError::Collection(
                        CollectionError::ParseError {
                            path: String::from_str(self.path()),
                            line: None,
                            message,
                        },
                    ),
                )
            },
        }
    }

    fn try_as_function(&self) -> (r: Option<&Function>) {
        match self {
            CollectorNode::Function(f) => Some(f),
            _ => None,
        }
    }
}

} // verus!
