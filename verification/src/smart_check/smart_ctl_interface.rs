//! How smartctl's exit code is read.

use vstd::prelude::*;

verus! {

/// smartctl encodes SMART health flags in exit bits 2-7; only bits 0-1 are real failures.
pub fn smartctl_failed(code: i32) -> (b: bool)
    ensures
        b == (code & 3 != 0),
{
    code & 3 != 0
}

} // verus!
