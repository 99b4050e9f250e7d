//! The number of processors of the machine, as the operating system reports
//! it.

use vstd::prelude::*;

verus! {

/// The number of logical processors available to this process:
/// `num_cpus::get`, which is documented to return at least 1. The count
/// depends on the machine and on the limits set for the process.
#[verifier::external_body]
pub(crate) fn logical_cpus() -> (n: usize)
    ensures
        n >= 1,
{
    num_cpus::get()
}

/// The number of physical cores of the machine: `num_cpus::get_physical`,
/// which is documented to return at least 1.
#[verifier::external_body]
pub(crate) fn physical_cpus() -> (n: usize)
    ensures
        n >= 1,
{
    num_cpus::get_physical()
}

} // verus!
