use vstd::prelude::*;
use crate::decimal::{decimal, push_decimal};
use vstd::string::StringExecFns;

verus! {

#[derive(Debug)]
pub struct AtaSmartSelfTestLog {
    pub standard: Standard,
}

#[derive(Debug)]
pub struct Standard {
    pub revision: u32,
    pub table: Option<Vec<LogEntry>>,
}

/// One logged ATA self-test, newest first in the table.
#[derive(Debug)]
pub struct LogEntry {
    /// The test's kind (smartctl's `type`).
    pub test_type: TestType,
    pub status: Status,
    pub lifetime_hours: u64,
    /// The LBA of the first error; smartctl only emits this for a failed test.
    pub lba: Option<u64>,
}

#[derive(Debug)]
pub struct TestType {
    /// e.g. "Short offline", "Extended offline", "Conveyance offline".
    pub string: String,
}

#[derive(Debug)]
pub struct Status {
    pub value: u32,
    pub string: String,
    /// smartctl omits `passed` for tests that didn't complete (e.g. "Aborted by host"
    /// carries `remaining_percent` instead); a missing value reads as not passed.
    pub passed: bool,
}

impl LogEntry {
    pub open spec fn spec_failure_detail(&self) -> Option<Seq<char>> {
        match self.lba {
            Some(lba) => Some("first error at LBA "@ + decimal(lba as nat)),
            None => None,
        }
    }

    /// Detail about a failure (the LBA of the first read error), if recorded.
    pub fn failure_detail(&self) -> (r: Option<String>)
        ensures
            r matches Some(s) ==> self.spec_failure_detail() == Some(s@),
            r is None ==> self.spec_failure_detail() is None,
    {
        match self.lba {
            Some(lba) => {
                let mut s = String::from_str("first error at LBA ");
                push_decimal(&mut s, lba as u128);
                Some(s)
            },
            None => None,
        }
    }
}

} // verus!
