//! What is known about the processor of the running machine. Querying the
//! hardware stays outside this crate; the record it fills lives here.

use vstd::prelude::*;

verus! {

/// The CPU information record.
#[derive(Debug, PartialEq, Eq, Clone)]
pub struct CpuInfo {
    /// The name of the CPU (its brand string).
    pub name: String,
    /// The number of cores on the physical package.
    pub core_count: u32,
}

impl CpuInfo {
    /// A record from a brand string and a core count.
    pub fn new(name: String, core_count: u32) -> (r: CpuInfo)
        ensures
            r.name@ == name@,
            r.core_count == core_count,
    {
        CpuInfo { name, core_count }
    }
}

} // verus!
