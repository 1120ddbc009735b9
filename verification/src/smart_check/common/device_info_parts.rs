use vstd::prelude::*;

verus! {

#[derive(Debug)]
pub struct PowerOnTime {
    pub hours: u64,
}

#[derive(Debug)]
pub struct Device {
    pub name: String,
    /// The device type smartctl reports (its `type` field).
    pub drive_type: String,
    pub protocol: String,
}

#[derive(Debug)]
pub struct UserCapacity {
    pub bytes: u64,
}

#[derive(Debug)]
pub struct SmartStatus {
    pub passed: bool,
}

#[derive(Debug)]
pub struct Temperature {
    pub current: i64,
}

#[derive(Debug)]
pub struct EnduranceUsed {
    pub current_percent: u8,
}

} // verus!
