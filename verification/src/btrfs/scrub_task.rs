use vstd::prelude::*;
use crate::btrfs::btrfs_error::BtrfsError;
use crate::maintenance::{spec_begin_scrub, spec_end_scrub, MaintenanceSlots};

verus! {

/// The scrub slot, held for as long as a scrub runs.
pub struct ScrubRun {
    held: bool,
}

impl ScrubRun {
    /// Takes the scrub slot, or refuses with `AlreadyRunningError` when a scrub holds it.
    pub fn begin(slots: &mut MaintenanceSlots) -> (r: Result<ScrubRun, BtrfsError>)
        ensures
            r is Ok <==> spec_begin_scrub(*old(slots)) is Some,
            r is Err ==> r matches Err(BtrfsError::AlreadyRunningError()),
            *final(slots) == match spec_begin_scrub(*old(slots)) {
                Some(t) => t,
                None => *old(slots),
            },
    {
        if slots.scrub {
            Err(BtrfsError::AlreadyRunningError())
        } else {
            slots.scrub = true;
            Ok(ScrubRun { held: true })
        }
    }

    /// Gives the scrub slot back.
    pub fn finish(self, slots: &mut MaintenanceSlots)
        ensures
            *final(slots) == spec_end_scrub(*old(slots)),
    {
        slots.scrub = false;
    }
}

} // verus!
