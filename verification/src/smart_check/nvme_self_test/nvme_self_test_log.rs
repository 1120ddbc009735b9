use vstd::prelude::*;
use crate::decimal::{decimal, push_decimal};
use crate::strings::to_chars;
use vstd::string::StringExecFns;

verus! {

#[derive(Debug)]
pub struct NvmeSelfTestLog {
    pub nsid: i64,
    pub current_self_test_operation: ValueString,
    pub table: Option<Vec<LogEntry>>,
    pub current_self_test_completion_percent: Option<u8>,
}

/// One logged NVMe self-test, newest first in the table.
#[derive(Debug)]
pub struct LogEntry {
    pub self_test_result: ValueString,
    pub self_test_code: ValueString,
    pub power_on_hours: u64,
    /// Only emitted by smartctl when the corresponding field is valid (i.e. on a failure).
    pub failing_lba: Option<u64>,
    pub segment: Option<u32>,
}

#[derive(Debug)]
pub struct ValueString {
    pub value: u64,
    pub string: String,
}

impl LogEntry {
    pub open spec fn spec_completed_without_error(&self) -> bool {
        self.self_test_result.string@ == "Completed without error"@
    }

    pub fn has_completed_without_error(&self) -> (b: bool)
        ensures
            b == self.spec_completed_without_error(),
    {
        let s = to_chars(self.self_test_result.string.as_str());
        crate::strings::str_eq(&s, "Completed without error")
    }

    pub open spec fn spec_failure_detail(&self) -> Option<Seq<char>> {
        match (self.failing_lba, self.segment) {
            (Some(lba), Some(seg)) => Some(
                "LBA "@ + decimal(lba as nat) + ", "@ + "segment "@ + decimal(seg as nat),
            ),
            (Some(lba), None) => Some("LBA "@ + decimal(lba as nat)),
            (None, Some(seg)) => Some("segment "@ + decimal(seg as nat)),
            (None, None) => None,
        }
    }

    /// Detail about a failure (failing LBA and/or segment), if reported.
    pub fn failure_detail(&self) -> (r: Option<String>)
        ensures
            r matches Some(s) ==> self.spec_failure_detail() == Some(s@),
            r is None ==> self.spec_failure_detail() is None,
    {
        match (self.failing_lba, self.segment) {
            (None, None) => None,
            (lba, seg) => {
                let mut s = String::new();
                match lba {
                    Some(l) => {
                        s.append("LBA ");
                        push_decimal(&mut s, l as u128);
                    },
                    None => {},
                }
                match seg {
                    Some(g) => {
                        if lba.is_some() {
                            s.append(", ");
                        }
                        s.append("segment ");
                        push_decimal(&mut s, g as u128);
                    },
                    None => {},
                }
                Some(s)
            },
        }
    }
}

} // verus!
