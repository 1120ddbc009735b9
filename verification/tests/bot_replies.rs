use telemetroid::btrfs::btrfs_error::BtrfsError;
use telemetroid::btrfs::scrub_report::ScrubReport;
use telemetroid::smart_check::drives::Drives;
use telemetroid::smart_check::self_test_report::SelfTestReport;
use telemetroid::smart_check::smart_check_error::SmartCheckError;
use telemetroid::system_update::available_package_update::AvailablePackageUpdate;
use telemetroid::system_update::update_check_error::UpdateCheckError;
use telemetroid::telegram_interface::command::Command;
use telemetroid::telegram_interface::replies::{
    drives_reply, scrub_outcome, scrub_refusal, scrub_started, self_test_outcome,
    self_test_refusal, self_test_started, updates_reply,
};

#[test]
fn update_replies() {
    let ok: Result<Vec<AvailablePackageUpdate>, UpdateCheckError> = Ok(vec![AvailablePackageUpdate {
        name: "vim".to_string(),
        from_version: "9.0_1".to_string(),
        to_version: "9.1_1".to_string(),
    }]);
    assert_eq!(updates_reply(&ok), "<b>Available updates: 1</b>\n\nvim 9.0_1 -> 9.1_1");
    assert_eq!(updates_reply(&Ok(Vec::new())), "System is up to date");
    let err = Err(UpdateCheckError::CommandExecutionError("xbps-query -l".to_string(), "boom".to_string()));
    assert_eq!(
        updates_reply(&err),
        "Failed to check updates: Failed to execute \"xbps-query -l\" command: boom"
    );
}

#[test]
fn smart_check_replies() {
    let none = Ok(Drives { ata: Vec::new(), nvme: Vec::new() });
    assert_eq!(drives_reply(&none), "No drives found\n");
    let err = Err(SmartCheckError::ScanError("no smartctl".to_string()));
    assert_eq!(
        drives_reply(&err),
        "Failed to prepare smart check: Unable to scan for drives: no smartctl"
    );
}

#[test]
fn self_test_run_replies() {
    assert_eq!(
        self_test_refusal("short", &SmartCheckError::AlreadyRunningError()),
        "⏳ A SMART self-test is already in progress"
    );
    assert_eq!(
        self_test_refusal("long", &SmartCheckError::SpawnError("x".to_string())),
        "Failed to start long self-test: x"
    );
    assert_eq!(
        self_test_started("short"),
        "▶️ Started short SMART self-test on all drives. I'll report back when it finishes."
    );
    let done: Result<SelfTestReport, SmartCheckError> = Ok(SelfTestReport { results: Vec::new() });
    assert_eq!(
        self_test_outcome("long", &done),
        "<b>SMART long self-test result:</b>\n\nNo drives found\n"
    );
    let failed = Err(SmartCheckError::SpawnError("task 7 panicked".to_string()));
    assert_eq!(self_test_outcome("short", &failed), "Failed to run short self-test: task 7 panicked");
}

#[test]
fn scrub_run_replies() {
    assert_eq!(
        scrub_refusal(&BtrfsError::AlreadyRunningError()),
        "⏳ A btrfs scrub is already in progress"
    );
    assert_eq!(
        scrub_refusal(&BtrfsError::ScrubError("no".to_string())),
        "Failed to start scrub: Unable to run btrfs scrub: no"
    );
    assert_eq!(
        scrub_started(),
        "▶️ Started btrfs scrub on all mounted filesystems. I'll report back when it finishes."
    );
    let done: Result<ScrubReport, BtrfsError> = Ok(ScrubReport { results: Vec::new() });
    assert_eq!(scrub_outcome(&done), "<b>Btrfs scrub result:</b>\n\nNo btrfs filesystems found\n");
    let failed = Err(BtrfsError::FormatError("bad".to_string()));
    assert_eq!(scrub_outcome(&failed), "Failed to run scrub: Unable to parse btrfs output: bad");
}

#[test]
fn commands_compare() {
    assert_eq!(Command::Scrub, Command::Scrub);
    assert_ne!(Command::SmartTestShort, Command::SmartTestLong);
}
