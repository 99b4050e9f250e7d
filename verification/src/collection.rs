//! The collection tree: directories, modules and test functions, and the
//! session that turns a walked source tree into an ordered item sequence.

pub mod config;
pub mod error;
pub mod nodes;
pub mod session;
pub mod types;
