//! Which modules belong to Python's standard library.

use crate::text::texts;
use vstd::prelude::*;

verus! {

/// Whether `module` is the name of a top-level module of the standard
/// library of Python 3.`minor_version`, as the table of
/// `ruff_python_stdlib` has it.
pub uninterp spec fn known_standard_library(minor_version: u8, module: Seq<char>) -> bool;

/// Looks `module` up in the table of standard-library modules:
/// `ruff_python_stdlib::sys::is_known_standard_library`, a fixed table that
/// depends on nothing but its two arguments.
#[verifier::external_body]
pub(crate) fn is_known_standard_library(minor_version: u8, module: &str) -> (known: bool)
    ensures
        known == known_standard_library(minor_version, module@),
{
    ruff_python_stdlib::sys::is_known_standard_library(minor_version, module)
}

/// The minor version of Python whose standard library is consulted.
pub open spec fn stdlib_minor_version() -> u8 {
    11
}

/// Whether a dotted module path lies in the standard library: its first
/// component is a standard-library module.
pub open spec fn in_standard_library(module: Seq<Seq<char>>) -> bool {
    module.len() > 0 && known_standard_library(stdlib_minor_version(), module[0])
}

/// Whether a module is left out of inheritance analysis because it belongs
/// to the standard library.
pub fn is_stdlib_module_to_skip(module: &Vec<String>) -> (skip: bool)
    ensures
        skip == in_standard_library(texts(module@)),
{
    if module.len() == 0 {
        return false;
    }
    is_known_standard_library(11, module[0].as_str())
}

} // verus!
