//! The decisions of a self-test run: which drives take part, how long to wait for each,
//! and what each poll of a running test means.

use vstd::prelude::*;
use crate::maintenance::{spec_begin_self_test, spec_end_self_test, MaintenanceSlots};
use crate::smart_check::ata_self_test::ata_drive_info::AtaDriveInfo;
use crate::smart_check::basic_device_info::{BasicDeviceInfo, DeviceInterface};
use crate::smart_check::nvme_self_test::nvme_drive_info::NvmeDriveInfo;
use crate::smart_check::self_test_report::SelfTestOutcome;
use crate::smart_check::smart_check_error::SmartCheckError;
use vstd::string::StringExecFns;

verus! {

/// How long to wait between polls of a running self-test, in seconds.
pub const POLL_INTERVAL_SECS: u64 = 30;

/// Multiple of the drive's own time estimate to wait before giving up.
pub const TIMEOUT_GRACE: u64 = 2;

/// Lower bound on a test's timeout in seconds, so a tiny reported estimate still leaves
/// headroom.
pub const MIN_TIMEOUT_SECS: u64 = 300;

/// Which self-test to launch. Maps to smartctl's `-t` argument.
#[derive(Debug, Clone, Copy, PartialEq, Eq, Structural)]
pub enum SmartTestKind {
    Short,
    Long,
}

impl SmartTestKind {
    pub open spec fn spec_arg(self) -> Seq<char> {
        match self {
            SmartTestKind::Short => "short"@,
            SmartTestKind::Long => "long"@,
        }
    }

    /// smartctl's `-t` argument for this test.
    pub fn arg(self) -> (s: &'static str)
        ensures
            s@ == self.spec_arg(),
    {
        match self {
            SmartTestKind::Short => "short",
            SmartTestKind::Long => "long",
        }
    }

    pub open spec fn spec_fallback_timeout(self) -> nat {
        match self {
            SmartTestKind::Short => 15 * 60,
            SmartTestKind::Long => 4 * 60 * 60,
        }
    }

    /// Timeout in seconds when the drive reports no time estimate (NVMe). A short test is
    /// a couple of minutes; an extended test can run for hours on a large drive.
    pub fn fallback_timeout(self) -> (secs: u64)
        ensures
            secs == self.spec_fallback_timeout(),
    {
        match self {
            SmartTestKind::Short => 15 * 60,
            SmartTestKind::Long => 4 * 60 * 60,
        }
    }

    /// The kind's name as it is shown (`short` or `long`).
    pub fn name(self) -> (s: &'static str)
        ensures
            s@ == self.spec_arg(),
    {
        self.arg()
    }
}

/// The self-test slot, held for as long as a self-test run lasts.
pub struct SelfTestGuard {
    held: bool,
}

impl SelfTestGuard {
    /// Takes the self-test slot, or refuses with `AlreadyRunningError` when a run holds it.
    pub fn acquire(slots: &mut MaintenanceSlots) -> (r: Result<SelfTestGuard, SmartCheckError>)
        ensures
            r is Ok <==> spec_begin_self_test(*old(slots)) is Some,
            r is Err ==> r matches Err(SmartCheckError::AlreadyRunningError()),
            *final(slots) == match spec_begin_self_test(*old(slots)) {
                Some(t) => t,
                None => *old(slots),
            },
    {
        if slots.self_test {
            Err(SmartCheckError::AlreadyRunningError())
        } else {
            slots.self_test = true;
            Ok(SelfTestGuard { held: true })
        }
    }

    /// Gives the self-test slot back.
    pub fn release(self, slots: &mut MaintenanceSlots)
        ensures
            *final(slots) == spec_end_self_test(*old(slots)),
    {
        slots.self_test = false;
    }
}

/// The time allowed for a test, in seconds: twice the drive's own estimate but at least
/// the floor, or the kind's fixed ceiling when the drive gives no estimate.
pub open spec fn spec_timeout(kind: SmartTestKind, estimate: Option<u64>) -> nat {
    match estimate {
        Some(e) => if e * TIMEOUT_GRACE >= MIN_TIMEOUT_SECS {
            (e * TIMEOUT_GRACE) as nat
        } else {
            MIN_TIMEOUT_SECS as nat
        },
        None => kind.spec_fallback_timeout(),
    }
}

/// A test is given at least the floor when the drive estimates its length, and a long
/// test without an estimate gets more time than a short one.
pub proof fn lemma_timeout_floor(kind: SmartTestKind, estimate: Option<u64>)
    ensures
        estimate is Some ==> spec_timeout(kind, estimate) >= MIN_TIMEOUT_SECS,
        estimate matches Some(e) ==> spec_timeout(kind, estimate) >= e * TIMEOUT_GRACE,
        SmartTestKind::Long.spec_fallback_timeout() > SmartTestKind::Short.spec_fallback_timeout(),
{
}

pub fn self_test_timeout(kind: SmartTestKind, estimate: Option<u64>) -> (secs: u64)
    requires
        estimate matches Some(e) ==> e * TIMEOUT_GRACE <= u64::MAX,
    ensures
        secs == spec_timeout(kind, estimate),
{
    match estimate {
        Some(e) => {
            let t = e * TIMEOUT_GRACE;
            if t >= MIN_TIMEOUT_SECS {
                t
            } else {
                MIN_TIMEOUT_SECS
            }
        },
        None => kind.fallback_timeout(),
    }
}

/// What one poll of a running self-test means.
pub enum PollStep {
    /// Keep waiting; `progress` is the percent done when the drive reports it.
    Wait { running: bool, progress: Option<u8> },
    /// The wait is over, with this outcome.
    Done(Result<SelfTestOutcome, SmartCheckError>),
}

pub open spec fn incomplete(step: PollStep, name: Seq<char>, why: Seq<char>) -> bool {
    step matches PollStep::Done(Err(SmartCheckError::TestIncomplete(n, w))) && n@ == name && w@
        == why
}

/// Decides one poll: a test that is no longer running and has changed the log is done
/// with the drive's latest result (an error when the drive logged none); otherwise the
/// wait goes on until the deadline passes, and then ends as timed out.
pub fn poll_step(
    name: &str,
    running: bool,
    changed: bool,
    outcome: Option<SelfTestOutcome>,
    progress: Option<u8>,
    timed_out: bool,
) -> (step: PollStep)
    ensures
        !running && changed ==> match outcome {
            Some(o) => step == PollStep::Done(Ok(o)),
            None => incomplete(step, name@, "no result logged"@),
        },
        !(!running && changed) && timed_out ==> incomplete(
            step,
            name@,
            "timed out waiting for completion"@,
        ),
        !(!running && changed) && !timed_out ==> step == (PollStep::Wait { running, progress }),
{
    if !running && changed {
        match outcome {
            Some(o) => PollStep::Done(Ok(o)),
            None => PollStep::Done(
                Err(
                    SmartCheckError::TestIncomplete(
                        String::from_str(name),
                        String::from_str("no result logged"),
                    ),
                ),
            ),
        }
    } else if timed_out {
        PollStep::Done(
            Err(
                SmartCheckError::TestIncomplete(
                    String::from_str(name),
                    String::from_str("timed out waiting for completion"),
                ),
            ),
        )
    } else {
        PollStep::Wait { running, progress }
    }
}

/// Whether two log snapshots are the same.
pub fn same_snapshot(a: &Vec<(u64, u64)>, b: &Vec<(u64, u64)>) -> (r: bool)
    ensures
        r == (a@ == b@),
{
    if a.len() != b.len() {
        return false;
    }
    let mut i: usize = 0;
    while i < a.len()
        invariant
            a@.len() == b@.len(),
            i <= a@.len(),
            forall|j: int| 0 <= j < i ==> a@[j] == b@[j],
        decreases a@.len() - i,
    {
        if a[i].0 != b[i].0 || a[i].1 != b[i].1 {
            return false;
        }
        i += 1;
    }
    assert(a@ =~= b@);
    true
}

/// The drives a self-test run covers: those of a supported interface, in scan order.
pub open spec fn spec_testable(d: Seq<BasicDeviceInfo>) -> Seq<BasicDeviceInfo>
    decreases d.len(),
{
    if d.len() == 0 {
        Seq::empty()
    } else if d.last().protocol == DeviceInterface::Unsupported {
        spec_testable(d.drop_last())
    } else {
        spec_testable(d.drop_last()).push(d.last())
    }
}

/// Keeps the drives of a supported interface, in order.
pub fn testable_drives(drives: Vec<BasicDeviceInfo>) -> (r: Vec<BasicDeviceInfo>)
    ensures
        r@ == spec_testable(drives@),
{
    let mut r: Vec<BasicDeviceInfo> = Vec::new();
    let mut rest = drives;
    let ghost all = rest@;
    let mut taken: Vec<BasicDeviceInfo> = Vec::new();
    // Walk from the back so that each drive can be moved out, then restore the order.
    while rest.len() > 0
        invariant
            all == rest@ + taken@.reverse(),
        decreases rest@.len(),
    {
        let d = rest.pop().unwrap();
        let ghost before = taken@;
        taken.push(d);
        assert(taken@.reverse() =~= seq![d] + before.reverse());
        assert(all =~= rest@ + taken@.reverse());
    }
    assert(all =~= taken@.reverse());
    let ghost tk = taken@;
    assert(all.take(0) =~= Seq::<BasicDeviceInfo>::empty());
    while taken.len() > 0
        invariant
            all == tk.reverse(),
            taken@ == tk.take(taken@.len() as int),
            taken@.len() <= tk.len(),
            r@ == spec_testable(all.take(tk.len() - taken@.len())),
        decreases taken@.len(),
    {
        let ghost k: int = tk.len() - taken@.len();
        let d = taken.pop().unwrap();
        assert(d == all[k]);
        assert(all.take(k + 1).drop_last() =~= all.take(k));
        assert(all.take(k + 1).last() == d);
        if d.protocol != DeviceInterface::Unsupported {
            r.push(d);
        }
        assert(taken@ =~= tk.take(taken@.len() as int));
    }
    assert(all.take(tk.len() as int) =~= all);
    r
}

impl AtaDriveInfo {
    /// The outcome of the latest logged test: its pass flag and status text, with the
    /// drive's power-on hours.
    pub fn outcome(&self) -> (r: Option<SelfTestOutcome>)
        ensures
            r matches Some(o) ==> self.spec_latest() matches Some(e) && o.passed == e.status.passed
                && o.status@ == e.status.string@ && o.power_on_hours == self.power_on_time.hours,
            r is None <==> self.spec_latest() is None,
    {
        match self.latest_result() {
            Some(entry) => Some(
                SelfTestOutcome {
                    passed: entry.status.passed,
                    status: entry.status.string.clone(),
                    power_on_hours: self.power_on_time.hours,
                },
            ),
            None => None,
        }
    }

    pub open spec fn spec_estimated_duration(&self, kind: SmartTestKind) -> nat {
        let p = self.ata_smart_data.self_test.polling_minutes;
        match kind {
            SmartTestKind::Short => (p.short * 60) as nat,
            SmartTestKind::Long => (p.extended * 60) as nat,
        }
    }

    /// The drive's own estimate of the test's length, in seconds.
    pub fn estimated_duration(&self, kind: SmartTestKind) -> (r: Option<u64>)
        requires
            self.spec_estimated_duration(kind) <= u64::MAX,
        ensures
            r == Some(self.spec_estimated_duration(kind) as u64),
            kind == SmartTestKind::Long ==> r == Some(
                (self.ata_smart_data.self_test.polling_minutes.extended * 60) as u64,
            ),
            kind == SmartTestKind::Short ==> r == Some(
                (self.ata_smart_data.self_test.polling_minutes.short * 60) as u64,
            ),
    {
        let polling = &self.ata_smart_data.self_test.polling_minutes;
        let minutes = match kind {
            SmartTestKind::Short => polling.short,
            SmartTestKind::Long => polling.extended,
        };
        Some(minutes * 60)
    }

    /// Percent of the running test completed: smartctl reports the percent remaining.
    pub fn progress(&self) -> (r: Option<u8>)
        ensures
            r == match self.ata_smart_data.self_test.status.remaining_percent {
                Some(rem) => Some(if rem <= 100 { (100 - rem) as u8 } else { 0u8 }),
                None => None,
            },
    {
        match self.ata_smart_data.self_test.status.remaining_percent {
            Some(remaining) => Some(100u8.saturating_sub(remaining)),
            None => None,
        }
    }
}

/// An ATA drive estimates a long (extended) self-test at its extended polling time and a
/// short one at its short polling time, each in seconds; so a long test is given at least
/// twice the extended time.
pub proof fn lemma_ata_estimates(d: AtaDriveInfo)
    ensures
        d.spec_estimated_duration(SmartTestKind::Long)
            == d.ata_smart_data.self_test.polling_minutes.extended * 60,
        d.spec_estimated_duration(SmartTestKind::Short)
            == d.ata_smart_data.self_test.polling_minutes.short * 60,
        d.ata_smart_data.self_test.polling_minutes.extended * 60 <= u64::MAX ==> spec_timeout(
            SmartTestKind::Long,
            Some(d.spec_estimated_duration(SmartTestKind::Long) as u64),
        ) >= 2 * (d.ata_smart_data.self_test.polling_minutes.extended * 60),
{
}

impl NvmeDriveInfo {
    /// The outcome of the latest logged test: passed when it completed without error.
    pub fn outcome(&self) -> (r: Option<SelfTestOutcome>)
        ensures
            r matches Some(o) ==> self.spec_latest() matches Some(e) && o.passed
                == e.spec_completed_without_error() && o.status@ == e.self_test_result.string@
                && o.power_on_hours == e.power_on_hours,
            r is None <==> self.spec_latest() is None,
    {
        match self.latest_result() {
            Some(entry) => Some(
                SelfTestOutcome {
                    passed: entry.has_completed_without_error(),
                    status: entry.self_test_result.string.clone(),
                    power_on_hours: entry.power_on_hours,
                },
            ),
            None => None,
        }
    }

    /// NVMe self-test output carries no time estimate; the caller uses a fixed timeout.
    pub fn estimated_duration(&self, kind: SmartTestKind) -> (r: Option<u64>)
        ensures
            r is None,
    {
        None
    }

    /// Percent of the running test completed, as the drive reports it.
    pub fn progress(&self) -> (r: Option<u8>)
        ensures
            r == self.nvme_self_test_log.current_self_test_completion_percent,
    {
        self.nvme_self_test_log.current_self_test_completion_percent
    }
}

} // verus!
