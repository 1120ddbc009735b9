use telemetroid::smart_check::basic_device_info::{BasicDeviceInfo, DeviceInterface};
use telemetroid::smart_check::self_test_report::{SelfTestOutcome, SelfTestReport};
use telemetroid::smart_check::self_test_task::{
    poll_step, same_snapshot, self_test_timeout, testable_drives, PollStep, SmartTestKind,
    MIN_TIMEOUT_SECS, POLL_INTERVAL_SECS, TIMEOUT_GRACE,
};
use telemetroid::smart_check::smart_check_error::SmartCheckError;
use telemetroid::telegram_interface::replies::self_test_reply;

fn outcome(passed: bool) -> SelfTestOutcome {
    SelfTestOutcome {
        passed,
        status: if passed { "Completed without error" } else { "Completed: read failure" }
            .to_string(),
        power_on_hours: 12000,
    }
}

fn incomplete(step: PollStep) -> (String, String) {
    match step {
        PollStep::Done(Err(SmartCheckError::TestIncomplete(n, w))) => (n, w),
        PollStep::Done(Ok(o)) => panic!("unexpected outcome {:?}", o),
        PollStep::Done(Err(e)) => panic!("unexpected error {:?}", e),
        PollStep::Wait { .. } => panic!("unexpected wait"),
    }
}

#[test]
fn kinds() {
    assert_eq!(SmartTestKind::Short.arg(), "short");
    assert_eq!(SmartTestKind::Long.arg(), "long");
    assert_eq!(SmartTestKind::Long.name(), "long");
    assert_eq!(SmartTestKind::Short.fallback_timeout(), 15 * 60);
    assert_eq!(SmartTestKind::Long.fallback_timeout(), 4 * 60 * 60);
    assert_eq!(POLL_INTERVAL_SECS, 30);
}

#[test]
fn timeouts() {
    assert_eq!(self_test_timeout(SmartTestKind::Short, Some(2 * 60)), MIN_TIMEOUT_SECS);
    assert_eq!(self_test_timeout(SmartTestKind::Long, Some(85 * 60)), 85 * 60 * TIMEOUT_GRACE);
    assert_eq!(self_test_timeout(SmartTestKind::Short, Some(150)), 300);
    assert_eq!(self_test_timeout(SmartTestKind::Short, Some(151)), 302);
    assert_eq!(self_test_timeout(SmartTestKind::Short, None), 900);
    assert_eq!(self_test_timeout(SmartTestKind::Long, None), 14400);
    assert_eq!(self_test_timeout(SmartTestKind::Long, Some(0)), 300);
}

#[test]
fn a_finished_test_with_a_new_entry_is_done() {
    match poll_step("/dev/sda", false, true, Some(outcome(true)), None, true) {
        PollStep::Done(Ok(o)) => {
            assert!(o.passed);
            assert_eq!(o.render(), "✅ Passed · Completed without error (12000 h)");
        }
        _ => panic!("not done"),
    }
    let (n, w) = incomplete(poll_step("/dev/sda", false, true, None, None, false));
    assert_eq!(n, "/dev/sda");
    assert_eq!(w, "no result logged");
}

#[test]
fn a_running_test_waits_until_the_deadline() {
    match poll_step("/dev/sda", true, true, Some(outcome(true)), Some(40), false) {
        PollStep::Wait { running, progress } => {
            assert!(running);
            assert_eq!(progress, Some(40));
        }
        _ => panic!("not waiting"),
    }
    match poll_step("/dev/nvme0", false, false, None, None, false) {
        PollStep::Wait { running, progress } => {
            assert!(!running);
            assert_eq!(progress, None);
        }
        _ => panic!("not waiting"),
    }
    let (n, w) = incomplete(poll_step("/dev/sda", true, false, None, Some(90), true));
    assert_eq!(n, "/dev/sda");
    assert_eq!(w, "timed out waiting for completion");
    let e = SmartCheckError::TestIncomplete(n, w);
    assert_eq!(e.message(), "Self-test on \"/dev/sda\" did not complete: timed out waiting for completion");
}

#[test]
fn snapshots_compare_by_content() {
    assert!(same_snapshot(&vec![], &vec![]));
    assert!(same_snapshot(&vec![(1, 2), (3, 4)], &vec![(1, 2), (3, 4)]));
    assert!(!same_snapshot(&vec![(1, 2)], &vec![(1, 2), (3, 4)]));
    assert!(!same_snapshot(&vec![(1, 2), (3, 5)], &vec![(1, 2), (3, 4)]));
    assert!(!same_snapshot(&vec![(0, 2)], &vec![(1, 2)]));
}

#[test]
fn only_supported_drives_are_tested_in_scan_order() {
    let d = |name: &str, protocol| BasicDeviceInfo { name: name.to_string(), protocol };
    let kept = testable_drives(vec![
        d("/dev/sda", DeviceInterface::Ata),
        d("/dev/sdb", DeviceInterface::Unsupported),
        d("/dev/nvme0", DeviceInterface::Nvme),
        d("/dev/sdc", DeviceInterface::Ata),
        d("/dev/bus/0", DeviceInterface::Unsupported),
    ]);
    let names: Vec<&str> = kept.iter().map(|d| d.name.as_str()).collect();
    assert_eq!(names, vec!["/dev/sda", "/dev/nvme0", "/dev/sdc"]);
    assert!(testable_drives(vec![d("/dev/sdb", DeviceInterface::Unsupported)]).is_empty());
}

#[test]
fn self_test_report_rendering() {
    let empty = SelfTestReport { results: Vec::new() };
    assert!(empty.is_empty());
    assert_eq!(empty.len(), 0);
    assert_eq!(empty.render(), "No drives found\n");
    let report = SelfTestReport {
        results: vec![
            ("/dev/sda".to_string(), Ok(outcome(false))),
            (
                "/dev/nvme0".to_string(),
                Err(SmartCheckError::TestIncomplete(
                    "/dev/nvme0".to_string(),
                    "no result logged".to_string(),
                )),
            ),
        ],
    };
    assert_eq!(report.len(), 2);
    let text = "1. <b>/dev/sda</b>\n❌ FAILED · Completed: read failure (12000 h)\n\n\
                2. <b>/dev/nvme0</b>\nFailed: Self-test on \"/dev/nvme0\" did not complete: no result logged\n\n";
    assert_eq!(report.render(), text);
    assert_eq!(
        self_test_reply("long", &report),
        format!("<b>SMART long self-test result:</b>\n\n{}", text)
    );
}
