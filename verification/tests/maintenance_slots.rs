use telemetroid::btrfs::btrfs_error::BtrfsError;
use telemetroid::btrfs::scrub_task::ScrubRun;
use telemetroid::maintenance::{MaintenanceRun, MaintenanceSlots};
use telemetroid::smart_check::self_test_task::SelfTestGuard;
use telemetroid::smart_check::smart_check_error::SmartCheckError;

#[test]
fn slots_start_free() {
    let s = MaintenanceSlots::new();
    assert!(!s.scrub && !s.self_test);
}

#[test]
fn a_second_scrub_is_refused_until_the_first_finishes() {
    let mut s = MaintenanceSlots::new();
    let run = ScrubRun::begin(&mut s).unwrap();
    assert!(s.scrub && !s.self_test);
    match ScrubRun::begin(&mut s) {
        Err(e @ BtrfsError::AlreadyRunningError()) => {
            assert_eq!(e.message(), "A btrfs scrub is already in progress")
        }
        _ => panic!("second scrub was not refused"),
    }
    assert!(s.scrub);
    run.finish(&mut s);
    assert_eq!(s, MaintenanceSlots::new());
    assert!(ScrubRun::begin(&mut s).is_ok());
}

#[test]
fn a_second_self_test_is_refused_until_the_first_ends() {
    let mut s = MaintenanceSlots::new();
    let guard = SelfTestGuard::acquire(&mut s).unwrap();
    assert!(s.self_test && !s.scrub);
    match SelfTestGuard::acquire(&mut s) {
        Err(e @ SmartCheckError::AlreadyRunningError()) => {
            assert_eq!(e.message(), "A SMART self-test is already in progress")
        }
        _ => panic!("second self-test was not refused"),
    }
    // A scrub may run beside a self-test.
    let scrub = ScrubRun::begin(&mut s).unwrap();
    scrub.finish(&mut s);
    guard.release(&mut s);
    assert_eq!(s, MaintenanceSlots::new());
}

#[test]
fn a_maintenance_run_holds_both_slots() {
    let mut s = MaintenanceSlots::new();
    let run = MaintenanceRun::begin(&mut s).unwrap();
    assert!(s.scrub && s.self_test);
    assert!(ScrubRun::begin(&mut s).is_err());
    assert!(SelfTestGuard::acquire(&mut s).is_err());
    assert!(MaintenanceRun::begin(&mut s).is_err());
    assert!(s.scrub && s.self_test);
    run.finish(&mut s);
    assert_eq!(s, MaintenanceSlots::new());
}

#[test]
fn a_refused_maintenance_run_takes_nothing() {
    let mut s = MaintenanceSlots::new();
    let scrub = ScrubRun::begin(&mut s).unwrap();
    assert!(MaintenanceRun::begin(&mut s).is_err());
    assert!(s.scrub && !s.self_test);
    scrub.finish(&mut s);

    let guard = SelfTestGuard::acquire(&mut s).unwrap();
    assert!(MaintenanceRun::begin(&mut s).is_err());
    assert!(!s.scrub && s.self_test);
    guard.release(&mut s);
    assert!(MaintenanceRun::begin(&mut s).is_ok());
}
