//! Waiting for an NVMe short self-test: the drive is polled every
//! `SECONDS_BETWEEN_PROGRESS_CHECKS` seconds until it reports a new log entry, until
//! `MAX_CONSECUTIVE_ERRORS` polls in a row fail, or until `TIMEOUT_SECS` have passed.

use vstd::prelude::*;
use crate::decimal::{decimal, push_decimal};
use crate::smart_check::nvme_self_test::nvme_drive_info::{nvme_snapshot, NvmeDriveInfo};
use crate::smart_check::self_test_task::same_snapshot;
use crate::smart_check::smart_check_error::SmartCheckError;
use crate::smart_check::smart_check_result::{SmartCheckFailure, SmartCheckResult};
use vstd::string::StringExecFns;

verus! {

pub const SECONDS_BETWEEN_PROGRESS_CHECKS: u64 = 15;

pub const TIMEOUT_SECS: u64 = 300;

pub const MAX_CONSECUTIVE_ERRORS: u32 = 3;

/// Where the wait stands between two polls.
#[derive(Debug, Clone, Copy, PartialEq, Eq, Structural)]
pub struct NvmeProgress {
    /// Seconds waited so far.
    pub time_passed: u64,
    /// Polls in a row that could not read the drive.
    pub consecutive_errors: u32,
    /// The last completion percentage the drive reported.
    pub last_progress: Option<u8>,
}

/// What a poll leads to.
pub enum NvmeStep {
    /// Sleep `SECONDS_BETWEEN_PROGRESS_CHECKS` and poll again from this state.
    Continue(NvmeProgress),
    Finished(Result<SmartCheckResult, SmartCheckFailure>),
}

/// The message of a wait that ran out of time.
pub open spec fn timeout_text(last: Option<u8>) -> Seq<char> {
    match last {
        Some(p) => "Timeout (last progress: "@ + decimal(p as nat) + "%)"@,
        None => "Timeout (no progress reported)"@,
    }
}

/// One poll goes on to the next: the clock moves on by one interval and the wait had
/// not yet reached its timeout.
pub open spec fn continues(a: NvmeProgress, b: NvmeProgress) -> bool {
    a.time_passed < TIMEOUT_SECS && b.time_passed == a.time_passed + SECONDS_BETWEEN_PROGRESS_CHECKS
}

impl NvmeProgress {
    /// A state the wait can be in.
    pub open spec fn wf(&self) -> bool {
        &&& self.consecutive_errors < MAX_CONSECUTIVE_ERRORS
        &&& self.time_passed <= TIMEOUT_SECS
        &&& self.time_passed % SECONDS_BETWEEN_PROGRESS_CHECKS == 0
    }

    /// Before the first poll.
    pub fn new() -> (s: NvmeProgress)
        ensures
            s.wf(),
            s.time_passed == 0,
            s.consecutive_errors == 0,
            s.last_progress is None,
    {
        NvmeProgress { time_passed: 0, consecutive_errors: 0, last_progress: None }
    }

    /// Decides what one poll of the drive means. `drive` is the drive as it was before the
    /// test was launched; `poll` is what reading it now gave.
    pub fn step(&self, drive: &NvmeDriveInfo, poll: Result<NvmeDriveInfo, SmartCheckError>) -> (r:
        NvmeStep)
        requires
            self.wf(),
        ensures
            r matches NvmeStep::Continue(next) ==> next.wf() && continues(*self, next),
            poll matches Ok(info) ==> (!(info.nvme_self_test_log.current_self_test_operation.value
                != 0) ==> ({
                let fresh = nvme_snapshot(info.nvme_self_test_log.table) != nvme_snapshot(
                    drive.nvme_self_test_log.table,
                );
                if fresh && info.spec_latest() is Some {
                    r matches NvmeStep::Finished(Ok(res)) && res.drive_name@ == drive.device.name@
                        && res.power_on_time == info.power_on_time.hours && res.passed
                        == info.spec_latest()->0.spec_completed_without_error()
                } else {
                    r matches NvmeStep::Finished(Err(SmartCheckFailure::FailedToStart(n, m)))
                        && n@ == drive.device.name@ && m@ == "Test failed to start"@
                }
            })),
            poll matches Ok(info) ==> (info.nvme_self_test_log.current_self_test_operation.value
                != 0 ==> if self.time_passed >= TIMEOUT_SECS {
                r matches NvmeStep::Finished(Err(SmartCheckFailure::TestNotLogged(n, m))) && n@
                    == drive.device.name@ && m@ == timeout_text(
                    info.nvme_self_test_log.current_self_test_completion_percent,
                )
            } else {
                r == NvmeStep::Continue(
                    NvmeProgress {
                        time_passed: (self.time_passed + SECONDS_BETWEEN_PROGRESS_CHECKS) as u64,
                        consecutive_errors: 0,
                        last_progress: info.nvme_self_test_log.current_self_test_completion_percent,
                    },
                )
            }),
            poll matches Err(e) ==> if self.consecutive_errors + 1 >= MAX_CONSECUTIVE_ERRORS {
                r matches NvmeStep::Finished(Err(SmartCheckFailure::DeviceUnavailable(n, m))) && n@
                    == drive.device.name@ && m@ == "Repeated poll failures: "@ + e.spec_message()
            } else if self.time_passed >= TIMEOUT_SECS {
                r matches NvmeStep::Finished(Err(SmartCheckFailure::TestNotLogged(n, m))) && n@
                    == drive.device.name@ && m@ == timeout_text(self.last_progress)
            } else {
                r == NvmeStep::Continue(
                    NvmeProgress {
                        time_passed: (self.time_passed + SECONDS_BETWEEN_PROGRESS_CHECKS) as u64,
                        consecutive_errors: (self.consecutive_errors + 1) as u32,
                        last_progress: self.last_progress,
                    },
                )
            },
    {
        let mut consecutive_errors = self.consecutive_errors;
        let mut last_progress = self.last_progress;
        match poll {
            Ok(info) => {
                consecutive_errors = 0;
                if info.is_running() {
                    last_progress = info.nvme_self_test_log.current_self_test_completion_percent;
                } else {
                    let after = info.table_snapshot();
                    let before = drive.table_snapshot();
                    let new_result = if !same_snapshot(&after, &before) {
                        info.latest_result()
                    } else {
                        None
                    };
                    return match new_result {
                        None => NvmeStep::Finished(
                            Err(
                                SmartCheckFailure::FailedToStart(
                                    drive.device.name.clone(),
                                    String::from_str("Test failed to start"),
                                ),
                            ),
                        ),
                        Some(entry) => NvmeStep::Finished(
                            Ok(
                                SmartCheckResult {
                                    drive_name: drive.device.name.clone(),
                                    power_on_time: info.power_on_time.hours,
                                    passed: entry.has_completed_without_error(),
                                },
                            ),
                        ),
                    };
                }
            },
            Err(e) => {
                consecutive_errors = consecutive_errors + 1;
                if consecutive_errors >= MAX_CONSECUTIVE_ERRORS {
                    let mut m = String::from_str("Repeated poll failures: ");
                    let text = e.message();
                    m.append(text.as_str());
                    return NvmeStep::Finished(
                        Err(SmartCheckFailure::DeviceUnavailable(drive.device.name.clone(), m)),
                    );
                }
            },
        }
        if self.time_passed >= TIMEOUT_SECS {
            let m = match last_progress {
                Some(percent) => {
                    let mut m = String::from_str("Timeout (last progress: ");
                    push_decimal(&mut m, percent as u128);
                    m.append("%)");
                    m
                },
                None => String::from_str("Timeout (no progress reported)"),
            };
            return NvmeStep::Finished(
                Err(SmartCheckFailure::TestNotLogged(drive.device.name.clone(), m)),
            );
        }
        NvmeStep::Continue(
            NvmeProgress {
                time_passed: self.time_passed + SECONDS_BETWEEN_PROGRESS_CHECKS,
                consecutive_errors,
                last_progress,
            },
        )
    }
}

/// The wait polls the drive at most `TIMEOUT_SECS / SECONDS_BETWEEN_PROGRESS_CHECKS + 1`
/// times: in any run of polls that each went on to the next, starting before the first
/// poll, there are at most 21 states.
pub proof fn lemma_wait_is_bounded(trace: Seq<NvmeProgress>)
    requires
        trace.len() > 0,
        trace[0].time_passed == 0,
        forall|i: int| 0 <= i < trace.len() - 1 ==> continues(#[trigger] trace[i], trace[i + 1]),
    ensures
        trace.len() <= TIMEOUT_SECS / SECONDS_BETWEEN_PROGRESS_CHECKS + 1,
{
    let n = trace.len();
    assert forall|i: int| 0 <= i < n implies #[trigger] trace[i].time_passed == 15 * i by {
        lemma_time_at(trace, i);
    }
    if n > 21 {
        assert(continues(trace[20], trace[21]));
        assert(trace[20].time_passed == 300);
    }
}

proof fn lemma_time_at(trace: Seq<NvmeProgress>, i: int)
    requires
        0 <= i < trace.len(),
        trace[0].time_passed == 0,
        forall|k: int| 0 <= k < trace.len() - 1 ==> continues(#[trigger] trace[k], trace[k + 1]),
    ensures
        trace[i].time_passed == 15 * i,
    decreases i,
{
    if i > 0 {
        lemma_time_at(trace, i - 1);
        assert(continues(trace[i - 1], trace[i]));
    }
}

} // verus!
