//! The two maintenance slots: one for a btrfs scrub, one for a SMART self-test run.
//!
//! A run takes its slot when it begins and gives it back when it ends; while a slot is
//! taken, every other attempt to begin a run of that kind is refused as already running.
//! A combined monthly run holds both slots for its entire duration.

use vstd::prelude::*;
use crate::btrfs::btrfs_error::BtrfsError;
use crate::btrfs::scrub_task::ScrubRun;
use crate::smart_check::self_test_task::SelfTestGuard;
use crate::smart_check::smart_check_error::SmartCheckError;

verus! {

/// Which maintenance slots are taken.
#[derive(Debug, Clone, Copy, PartialEq, Eq, Structural)]
pub struct MaintenanceSlots {
    pub scrub: bool,
    pub self_test: bool,
}

impl MaintenanceSlots {
    /// Both slots free.
    pub fn new() -> (s: MaintenanceSlots)
        ensures
            !s.scrub && !s.self_test,
    {
        MaintenanceSlots { scrub: false, self_test: false }
    }
}

/// Taking the scrub slot: `None` when it is taken already.
pub open spec fn spec_begin_scrub(s: MaintenanceSlots) -> Option<MaintenanceSlots> {
    if s.scrub {
        None
    } else {
        Some(MaintenanceSlots { scrub: true, ..s })
    }
}

/// Taking the self-test slot: `None` when it is taken already.
pub open spec fn spec_begin_self_test(s: MaintenanceSlots) -> Option<MaintenanceSlots> {
    if s.self_test {
        None
    } else {
        Some(MaintenanceSlots { self_test: true, ..s })
    }
}

/// Taking both slots for a combined run: the self-test slot first, then the scrub
/// slot; `None`, with nothing taken, when either is taken already.
pub open spec fn spec_begin_maintenance(s: MaintenanceSlots) -> Option<MaintenanceSlots> {
    match spec_begin_self_test(s) {
        None => None,
        Some(t) => match spec_begin_scrub(t) {
            None => None,
            Some(u) => Some(u),
        },
    }
}

pub open spec fn spec_end_scrub(s: MaintenanceSlots) -> MaintenanceSlots {
    MaintenanceSlots { scrub: false, ..s }
}

pub open spec fn spec_end_self_test(s: MaintenanceSlots) -> MaintenanceSlots {
    MaintenanceSlots { self_test: false, ..s }
}

pub open spec fn spec_end_maintenance(s: MaintenanceSlots) -> MaintenanceSlots {
    spec_end_scrub(spec_end_self_test(s))
}

/// Returned when a scrub or self-test is already running, so a combined maintenance run cannot
/// reserve both slots.
#[derive(Debug)]
pub struct MaintenanceBusy;

/// A combined monthly maintenance run: a btrfs scrub followed by a long SMART self-test.
///
/// It holds both the scrub slot and the self-test slot for its entire duration, so while it is
/// active every manual `/scrub`, `/smart_test_long` and `/smart_test_short` is rejected with
/// "already in progress" (their `begin()` calls see the slots taken).
pub struct MaintenanceRun {
    scrub: ScrubRun,
    selftest: SelfTestGuard,
}

impl MaintenanceRun {
    /// Reserves both the scrub and self-test slots, or returns `MaintenanceBusy` if either is
    /// already taken. If the second reservation fails, the first one is released.
    pub fn begin(slots: &mut MaintenanceSlots) -> (r: Result<MaintenanceRun, MaintenanceBusy>)
        ensures
            r is Ok <==> spec_begin_maintenance(*old(slots)) is Some,
            *final(slots) == match spec_begin_maintenance(*old(slots)) {
                Some(t) => t,
                None => *old(slots),
            },
    {
        let selftest = match SelfTestGuard::acquire(slots) {
            Ok(g) => g,
            Err(_) => return Err(MaintenanceBusy),
        };
        let scrub = match ScrubRun::begin(slots) {
            Ok(s) => s,
            Err(_) => {
                selftest.release(slots);
                return Err(MaintenanceBusy);
            },
        };
        Ok(MaintenanceRun { scrub, selftest })
    }

    /// Gives both slots back.
    pub fn finish(self, slots: &mut MaintenanceSlots)
        ensures
            *final(slots) == spec_end_maintenance(*old(slots)),
    {
        let MaintenanceRun { scrub, selftest } = self;
        selftest.release(slots);
        scrub.finish(slots);
    }
}

/// A combined run begins exactly when both slots are free, and then takes both.
pub proof fn lemma_maintenance_takes_both(s: MaintenanceSlots)
    ensures
        spec_begin_maintenance(s) is Some <==> !s.scrub && !s.self_test,
        spec_begin_maintenance(s) matches Some(t) ==> t.scrub && t.self_test,
{
}

/// While a combined run holds its slots, a scrub, a short self-test and a long self-test
/// are all refused.
pub proof fn lemma_maintenance_blocks_manual_runs(s: MaintenanceSlots, t: MaintenanceSlots)
    requires
        spec_begin_maintenance(s) == Some(t),
    ensures
        spec_begin_scrub(t) is None,
        spec_begin_self_test(t) is None,
{
}

/// Ending a run gives back what beginning it took: the slots are as before.
pub proof fn lemma_end_undoes_begin(s: MaintenanceSlots)
    ensures
        spec_begin_scrub(s) matches Some(t) ==> spec_end_scrub(t) == s,
        spec_begin_self_test(s) matches Some(t) ==> spec_end_self_test(t) == s,
        spec_begin_maintenance(s) matches Some(t) ==> spec_end_maintenance(t) == s,
{
}

/// A refused attempt changes nothing, and each kind of run takes only its own slot.
pub proof fn lemma_slots_independent(s: MaintenanceSlots)
    ensures
        spec_begin_scrub(s) matches Some(t) ==> t.self_test == s.self_test,
        spec_begin_self_test(s) matches Some(t) ==> t.scrub == s.scrub,
        s.scrub ==> spec_begin_scrub(s) is None,
        s.self_test ==> spec_begin_self_test(s) is None,
{
}

} // verus!
