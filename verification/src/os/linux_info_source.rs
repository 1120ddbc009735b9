use vstd::prelude::*;

verus! {

/// Reads the OS summary from a Linux system's files.
pub struct LinuxInfoSource;

} // verus!
