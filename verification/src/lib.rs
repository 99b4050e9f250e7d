//! Static discovery of Python test items and their distribution over worker
//! processes.
//!
//! The crate finds test modules by glob, expands parametrized tests and class
//! inheritance from a syntax tree without running any user code, partitions the
//! resulting node identifiers over workers, and folds the workers' results into
//! one exit status. Verus proves the contracts of its functions; the few
//! items that rest on the standard library or on another crate say so.

pub mod cli;
pub mod collection;
pub mod collection_integration;
pub mod collection_report;
pub mod collection_service;
pub mod cpus;
pub mod downcast;
pub mod driver;
pub mod error;
pub mod partition;
pub mod paths;
pub mod pattern;
pub mod python_discovery;
pub mod runner;
pub mod scheduler;
pub mod string_interner;
pub mod text;
pub mod worker;
