use vstd::prelude::*;
use crate::smart_check::basic_device_info::DeviceInterface;

verus! {

#[derive(Debug)]
pub enum SelfTestOutcome {
    CompletedOk,
    CompletedWithError { failing_lba: Option<u64> },
    Aborted,
}

/// A summary of an ATA drive's health after a self-test.
#[derive(Debug)]
pub struct AtaSmartCheckResult {
    pub drive_name: String,
    pub model_name: String,
    pub user_capacity_bytes: u64,
    pub interface: DeviceInterface,
    pub current_temperature: i32,
    pub max_temperature: Option<i32>,
    pub endurance_used_percentage: u8,
    pub power_on_time: u64,
    pub power_cycle_count: u64,
    /// Attribute 174, a proxy for power losses.
    pub unsafe_shutdowns: Option<u64>,
    pub smart_status: bool,
    pub self_test_outcome: SelfTestOutcome,
    pub last_self_test_hours: Option<u64>,
    /// Attribute 5.
    pub reallocated_sectors: Option<u64>,
    /// Attribute 197.
    pub pending_sectors: Option<u64>,
    /// Attribute 198.
    pub offline_uncorrectable: Option<u64>,
    /// Attribute 187.
    pub reported_uncorrectable: Option<u64>,
    /// Attribute 199, a sign of a bad cable.
    pub crc_errors: Option<u64>,
}

} // verus!
