//! Reading the result of an ATA short self-test once the wait for it is over.

use vstd::prelude::*;
use crate::smart_check::ata_self_test::ata_drive_info::{ata_snapshot, AtaDriveInfo};
use crate::smart_check::self_test_task::same_snapshot;
use crate::smart_check::smart_check_error::SmartCheckError;
use crate::smart_check::smart_check_result::{SmartCheckFailure, SmartCheckResult};
use vstd::string::StringExecFns;

verus! {

/// Decides what a re-read of the drive says about the test launched on it: a new log
/// entry gives its pass flag, no new entry means the test did not start, and a drive
/// that could not be read is unavailable. `drive` is the drive before the launch.
pub fn check_result(drive: &AtaDriveInfo, fetched: Result<AtaDriveInfo, SmartCheckError>) -> (r:
    Result<SmartCheckResult, SmartCheckFailure>)
    ensures
        fetched matches Ok(info) ==> ({
            let fresh = ata_snapshot(info.ata_smart_self_test_log.standard.table) != ata_snapshot(
                drive.ata_smart_self_test_log.standard.table,
            );
            if fresh && info.spec_latest() is Some {
                r matches Ok(res) && res.drive_name@ == drive.device.name@ && res.power_on_time
                    == info.power_on_time.hours && res.passed == info.spec_latest()->0.status.passed
            } else {
                r matches Err(SmartCheckFailure::FailedToStart(n, m)) && n@ == drive.device.name@
                    && m@ == "Test failed to start"@
            }
        }),
        fetched matches Err(e) ==> (r matches Err(SmartCheckFailure::DeviceUnavailable(n, m)) && n@
            == drive.device.name@ && m@ == e.spec_message()),
{
    match fetched {
        Ok(info) => {
            let after = info.table_snapshot();
            let before = drive.table_snapshot();
            let new_result = if !same_snapshot(&after, &before) {
                info.latest_result()
            } else {
                None
            };
            match new_result {
                None => Err(
                    SmartCheckFailure::FailedToStart(
                        drive.device.name.clone(),
                        String::from_str("Test failed to start"),
                    ),
                ),
                Some(log_entry) => Ok(
                    SmartCheckResult {
                        drive_name: drive.device.name.clone(),
                        power_on_time: info.power_on_time.hours,
                        passed: log_entry.status.passed,
                    },
                ),
            }
        },
        Err(e) => Err(SmartCheckFailure::DeviceUnavailable(drive.device.name.clone(), e.message())),
    }
}

} // verus!
