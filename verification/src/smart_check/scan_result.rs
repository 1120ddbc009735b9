use vstd::prelude::*;
use crate::smart_check::basic_device_info::BasicDeviceInfo;

verus! {

/// Top-level shape of `smartctl --scan --json` output.
#[derive(Debug)]
pub struct ScanResult {
    pub devices: Vec<BasicDeviceInfo>,
}

} // verus!
