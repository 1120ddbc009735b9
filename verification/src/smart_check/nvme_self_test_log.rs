use vstd::prelude::*;

verus! {

#[derive(Debug)]
pub struct NvmeSelfTestLog {
    pub nsid: i64,
    pub table: Vec<LogEntry>,
}

#[derive(Debug)]
pub struct LogEntry {
    pub self_test_result: SelfTestResult,
    pub power_on_hours: u64,
}

#[derive(Debug)]
pub struct SelfTestResult {
    pub value: u32,
    pub string: String,
}

} // verus!
