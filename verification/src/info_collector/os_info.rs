use vstd::prelude::*;

verus! {

/// What the status summary shows of the operating system; each field is `None` when it
/// could not be read.
#[derive(Debug)]
pub struct OsInfo {
    pub name: Option<String>,
    pub host: Option<String>,
    pub kernel: Option<String>,
    pub age: Option<String>,
    pub uptime: Option<String>,
    /// The 1, 5 and 15 minute load averages, each as a whole percentage of the CPU cores.
    pub load_percent: Option<(u32, u32, u32)>,
}

} // verus!
