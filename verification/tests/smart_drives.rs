use telemetroid::command_runner::CommandError;
use telemetroid::smart_check::ata_self_test::ata_drive_info::{
    AtaDriveInfo, AtaSmartAttributes, AtaSmartData, AttributeRaw, PollingMinutes, SelfTest,
    SelfTestStatus, SmartAttribute,
};
use telemetroid::smart_check::ata_self_test::ata_self_test_log::{
    AtaSmartSelfTestLog, LogEntry as AtaLogEntry, Standard, Status, TestType,
};
use telemetroid::smart_check::ata_self_test::ata_self_test_task::check_result;
use telemetroid::smart_check::basic_device_info::{BasicDeviceInfo, DeviceInterface};
use telemetroid::smart_check::common::device_info_parts::{
    Device, EnduranceUsed, PowerOnTime, SmartStatus, Temperature, UserCapacity,
};
use telemetroid::smart_check::drives::Drives;
use telemetroid::smart_check::nvme_self_test::nvme_drive_info::{NvmeDriveInfo, NvmeHealth};
use telemetroid::smart_check::nvme_self_test::nvme_self_test_log::{
    LogEntry as NvmeLogEntry, NvmeSelfTestLog, ValueString,
};
use telemetroid::smart_check::nvme_self_test::nvme_self_test_task::{NvmeProgress, NvmeStep};
use telemetroid::smart_check::smart_check_error::SmartCheckError;
use telemetroid::smart_check::smart_check_result::{SmartCheckFailure, SmartCheckResult};
use telemetroid::smart_check::drives::names_by_interface;
use telemetroid::smart_check::drive_info as first_check;

const GB: u64 = 1 << 30;

fn ata_entry(hours: u64, value: u32, status: &str, passed: bool, lba: Option<u64>) -> AtaLogEntry {
    AtaLogEntry {
        test_type: TestType { string: "Short offline".to_string() },
        status: Status { value, string: status.to_string(), passed },
        lifetime_hours: hours,
        lba,
    }
}

fn ata_drive(table: Option<Vec<AtaLogEntry>>, remaining: Option<u8>) -> AtaDriveInfo {
    AtaDriveInfo {
        model_name: "Samsung SSD 870 EVO".to_string(),
        power_on_time: PowerOnTime { hours: 12000 },
        power_cycle_count: 1,
        user_capacity: UserCapacity { bytes: 500 * GB },
        smart_status: SmartStatus { passed: true },
        temperature: Temperature { current: 34 },
        endurance_used: None,
        ata_smart_data: AtaSmartData {
            self_test: SelfTest {
                status: SelfTestStatus { remaining_percent: remaining },
                polling_minutes: PollingMinutes { short: 2, extended: 85 },
            },
        },
        ata_smart_attributes: None,
        device: Device {
            name: "/dev/sda".to_string(),
            drive_type: "sat".to_string(),
            protocol: "ATA".to_string(),
        },
        ata_smart_self_test_log: AtaSmartSelfTestLog { standard: Standard { revision: 1, table } },
    }
}

fn nvme_entry(hours: u64, value: u64, result: &str) -> NvmeLogEntry {
    NvmeLogEntry {
        self_test_result: ValueString { value, string: result.to_string() },
        self_test_code: ValueString { value: 1, string: "Short".to_string() },
        power_on_hours: hours,
        failing_lba: None,
        segment: None,
    }
}

fn nvme_drive(table: Option<Vec<NvmeLogEntry>>, operation: u64, percent: Option<u8>) -> NvmeDriveInfo {
    NvmeDriveInfo {
        model_name: "WD Black SN850X".to_string(),
        power_on_time: PowerOnTime { hours: 4321 },
        user_capacity: UserCapacity { bytes: 2000 * GB },
        device: Device {
            name: "/dev/nvme0".to_string(),
            drive_type: "nvme".to_string(),
            protocol: "NVMe".to_string(),
        },
        smart_status: SmartStatus { passed: true },
        temperature: Temperature { current: 41 },
        nvme_smart_health_information_log: NvmeHealth {
            critical_warning: 0,
            percentage_used: 3,
            available_spare: 100,
            available_spare_threshold: 10,
            media_errors: 0,
            power_cycles: 57,
        },
        nvme_self_test_log: NvmeSelfTestLog {
            nsid: -1,
            current_self_test_operation: ValueString {
                value: operation,
                string: "No self-test in progress".to_string(),
            },
            table,
            current_self_test_completion_percent: percent,
        },
    }
}

fn scan_error() -> SmartCheckError {
    SmartCheckError::CommandExecutionError(CommandError::Exit {
        cmd: "smartctl --json -a /dev/nvme0".to_string(),
        code: 2,
        detail: "open failed".to_string(),
    })
}

#[test]
fn ata_drive_queries() {
    let d = ata_drive(Some(vec![ata_entry(11990, 0, "Completed without error", true, None)]), None);
    assert!(!d.is_running());
    assert_eq!(d.table_snapshot(), vec![(11990, 0)]);
    assert_eq!(d.latest_result().unwrap().lifetime_hours, 11990);
    assert_eq!(d.ata_smart_data.get_polling_minutes(), 2);
    assert!(d.warnings().is_empty());
    let running = ata_drive(None, Some(70));
    assert!(running.is_running());
    assert!(running.table_snapshot().is_empty());
    assert!(running.latest_result().is_none());
    assert_eq!(running.progress(), Some(30));
    assert_eq!(ata_drive(None, Some(250)).progress(), Some(0));
}

#[test]
fn ata_canary_warnings_use_the_first_matching_attribute() {
    let mut d = ata_drive(None, None);
    let attr = |id: u32, value: u64| SmartAttribute { id, raw: AttributeRaw { value } };
    d.ata_smart_attributes = Some(AtaSmartAttributes {
        table: Some(vec![
            attr(9, 12000),
            attr(197, 2),
            attr(5, 0),
            attr(188, 7),
            attr(5, 99),
            attr(198, 1),
        ]),
    });
    assert_eq!(
        d.warnings(),
        vec!["Pending 2".to_string(), "Uncorrectable 1".to_string(), "Command timeout 7".to_string()]
    );
    d.ata_smart_attributes = Some(AtaSmartAttributes { table: None });
    assert!(d.warnings().is_empty());
}

#[test]
fn ata_drive_rendering() {
    let mut d = ata_drive(Some(vec![ata_entry(11990, 0, "Completed without error", true, None)]), None);
    assert_eq!(
        d.render(),
        "<b>Samsung SSD 870 EVO</b>\n500.00G ATA (/dev/sda)\n✅ Healthy · 34°C\n12000 h · 1 cycle\n\
         Last self-test: Short offline — Completed without error (11990 h)"
    );
    d.endurance_used = Some(EnduranceUsed { current_percent: 4 });
    d.smart_status.passed = false;
    d.temperature.current = -5;
    d.power_cycle_count = 3;
    d.ata_smart_self_test_log.standard.table = None;
    d.ata_smart_attributes = Some(AtaSmartAttributes {
        table: Some(vec![SmartAttribute { id: 5, raw: AttributeRaw { value: 8 } }]),
    });
    assert_eq!(
        d.render(),
        "<b>Samsung SSD 870 EVO</b>\n500.00G ATA (/dev/sda)\n❌ FAILING · -5°C · wear 4%\n12000 h · 3 cycles\n\
         Last self-test: none recorded\n⚠️ Reallocated 8"
    );
}

#[test]
fn ata_failure_detail() {
    assert_eq!(
        ata_entry(1, 121, "Completed: read failure", false, Some(123456)).failure_detail(),
        Some("first error at LBA 123456".to_string())
    );
    assert_eq!(ata_entry(1, 0, "ok", true, None).failure_detail(), None);
}

#[test]
fn ata_check_result_decisions() {
    let before = ata_drive(Some(vec![ata_entry(100, 0, "Completed without error", true, None)]), None);
    let after = ata_drive(
        Some(vec![
            ata_entry(12000, 121, "Completed: read failure", false, Some(5)),
            ata_entry(100, 0, "Completed without error", true, None),
        ]),
        None,
    );
    match check_result(&before, Ok(after)) {
        Ok(r) => {
            assert_eq!(r.drive_name, "/dev/sda");
            assert_eq!(r.power_on_time, 12000);
            assert!(!r.passed);
            assert_eq!(r.render(), "/dev/sda - failed");
        }
        Err(e) => panic!("unexpected {:?}", e),
    }
    let same = ata_drive(Some(vec![ata_entry(100, 0, "Completed without error", true, None)]), None);
    match check_result(&before, Ok(same)) {
        Err(f @ SmartCheckFailure::FailedToStart(..)) => {
            assert_eq!(f.message(), "Self-test on \"/dev/sda\" did not start: Test failed to start")
        }
        other => panic!("unexpected {:?}", other),
    }
    match check_result(&before, Err(SmartCheckError::FormatError("bad json".to_string()))) {
        Err(f @ SmartCheckFailure::DeviceUnavailable(..)) => assert_eq!(
            f.message(),
            "Device \"/dev/sda\" is unavailable: Unable to parse smartctl output: bad json"
        ),
        other => panic!("unexpected {:?}", other),
    }
}

#[test]
fn nvme_drive_queries_and_rendering() {
    let mut d = nvme_drive(Some(vec![nvme_entry(4300, 0, "Completed without error")]), 0, None);
    assert!(!d.is_running());
    assert_eq!(d.table_snapshot(), vec![(4300, 0)]);
    assert!(d.latest_result().unwrap().has_completed_without_error());
    assert!(d.warnings().is_empty());
    assert_eq!(
        d.render(),
        "<b>WD Black SN850X</b>\n1.95T NVMe (/dev/nvme0)\n✅ Healthy · 41°C · wear 3%\n\
         4321 h · 57 cycles · 0 media errors\nLast self-test: Completed without error (4300 h)"
    );
    d.nvme_smart_health_information_log.available_spare = 5;
    d.nvme_smart_health_information_log.critical_warning = 1;
    d.nvme_smart_health_information_log.media_errors = 1;
    d.nvme_self_test_log.table = None;
    assert_eq!(d.warnings(), vec!["Spare 5% (below 10% threshold)".to_string()]);
    assert_eq!(
        d.render(),
        "<b>WD Black SN850X</b>\n1.95T NVMe (/dev/nvme0)\n❌ FAILING · 41°C · wear 3%\n\
         4321 h · 57 cycles · 1 media error\nLast self-test: none recorded\n\
         ⚠️ Spare 5% (below 10% threshold)"
    );
}

#[test]
fn nvme_failure_detail() {
    let mut e = nvme_entry(1, 7, "Completed with failure");
    assert!(!e.has_completed_without_error());
    assert_eq!(e.failure_detail(), None);
    e.failing_lba = Some(42);
    assert_eq!(e.failure_detail(), Some("LBA 42".to_string()));
    e.segment = Some(3);
    assert_eq!(e.failure_detail(), Some("LBA 42, segment 3".to_string()));
    e.failing_lba = None;
    assert_eq!(e.failure_detail(), Some("segment 3".to_string()));
}

fn finished(step: NvmeStep) -> Result<SmartCheckResult, SmartCheckFailure> {
    match step {
        NvmeStep::Finished(r) => r,
        NvmeStep::Continue(p) => panic!("still waiting at {:?}", p),
    }
}

fn next(step: NvmeStep) -> NvmeProgress {
    match step {
        NvmeStep::Continue(p) => p,
        NvmeStep::Finished(r) => panic!("finished early with {:?}", r),
    }
}

#[test]
fn nvme_wait_finishes_on_a_new_entry() {
    let before = nvme_drive(Some(vec![nvme_entry(4000, 0, "Completed without error")]), 0, None);
    let p = NvmeProgress::new();
    assert_eq!(p, NvmeProgress { time_passed: 0, consecutive_errors: 0, last_progress: None });
    let p = next(p.step(&before, Ok(nvme_drive(None, 1, Some(40)))));
    assert_eq!(p, NvmeProgress { time_passed: 15, consecutive_errors: 0, last_progress: Some(40) });
    let done = nvme_drive(
        Some(vec![
            nvme_entry(4321, 0, "Completed without error"),
            nvme_entry(4000, 0, "Completed without error"),
        ]),
        0,
        None,
    );
    let r = finished(p.step(&before, Ok(done))).unwrap();
    assert_eq!(r.drive_name, "/dev/nvme0");
    assert_eq!(r.power_on_time, 4321);
    assert!(r.passed);
    assert_eq!(r.render(), "/dev/nvme0 - passed");
}

#[test]
fn nvme_wait_without_a_new_entry_failed_to_start() {
    let before = nvme_drive(Some(vec![nvme_entry(4000, 0, "Completed without error")]), 0, None);
    let same = nvme_drive(Some(vec![nvme_entry(4000, 0, "Completed without error")]), 0, None);
    match finished(NvmeProgress::new().step(&before, Ok(same))) {
        Err(SmartCheckFailure::FailedToStart(n, m)) => {
            assert_eq!(n, "/dev/nvme0");
            assert_eq!(m, "Test failed to start");
        }
        other => panic!("unexpected {:?}", other),
    }
}

#[test]
fn nvme_wait_gives_up_after_repeated_poll_failures() {
    let before = nvme_drive(None, 0, None);
    let p = next(NvmeProgress::new().step(&before, Err(scan_error())));
    assert_eq!(p.consecutive_errors, 1);
    let p = next(p.step(&before, Err(scan_error())));
    assert_eq!(p.consecutive_errors, 2);
    assert_eq!(p.time_passed, 30);
    match finished(p.step(&before, Err(scan_error()))) {
        Err(f @ SmartCheckFailure::DeviceUnavailable(..)) => assert_eq!(
            f.message(),
            "Device \"/dev/nvme0\" is unavailable: Repeated poll failures: \
             `smartctl --json -a /dev/nvme0` failed (exit 2): open failed"
        ),
        other => panic!("unexpected {:?}", other),
    }
    // A successful poll resets the count.
    let p = next(NvmeProgress::new().step(&before, Err(scan_error())));
    let p = next(p.step(&before, Ok(nvme_drive(None, 1, None))));
    assert_eq!(p.consecutive_errors, 0);
}

#[test]
fn nvme_wait_times_out_after_twenty_one_polls() {
    let before = nvme_drive(None, 0, None);
    let mut p = NvmeProgress::new();
    let mut polls = 0;
    let outcome = loop {
        polls += 1;
        match p.step(&before, Ok(nvme_drive(None, 1, Some(polls as u8)))) {
            NvmeStep::Continue(n) => p = n,
            NvmeStep::Finished(r) => break r,
        }
    };
    assert_eq!(polls, 300 / 15 + 1);
    match outcome {
        Err(f @ SmartCheckFailure::TestNotLogged(..)) => assert_eq!(
            f.message(),
            "Self-test result for \"/dev/nvme0\" was not logged: Timeout (last progress: 21%)"
        ),
        other => panic!("unexpected {:?}", other),
    }
    let at_limit = NvmeProgress { time_passed: 300, consecutive_errors: 1, last_progress: None };
    match finished(at_limit.step(&before, Err(scan_error()))) {
        Err(SmartCheckFailure::TestNotLogged(_, m)) => assert_eq!(m, "Timeout (no progress reported)"),
        other => panic!("unexpected {:?}", other),
    }
}

#[test]
fn drives_rendering_numbers_ata_then_nvme() {
    let empty = Drives { ata: Vec::new(), nvme: Vec::new() };
    assert!(empty.is_empty());
    assert_eq!(empty.len(), 0);
    assert_eq!(empty.render(), "No drives found\n");
    let ata = ata_drive(None, None);
    let ata_text = ata.render();
    let drives = Drives {
        ata: vec![Ok(ata), Err(SmartCheckError::ScanError("gone".to_string()))],
        nvme: vec![Err(scan_error())],
    };
    assert!(!drives.is_empty());
    assert_eq!(drives.len(), 3);
    assert_eq!(
        drives.render(),
        format!(
            "1. {}\n\n2. Failed: Unable to scan for drives: gone\n\n3. Failed: {}\n\n",
            ata_text,
            scan_error().message()
        )
    );
}

#[test]
fn interfaces_from_protocol_names() {
    assert_eq!(DeviceInterface::from_protocol("scsi"), DeviceInterface::Ata);
    assert_eq!(DeviceInterface::from_protocol("SCSI"), DeviceInterface::Ata);
    assert_eq!(DeviceInterface::from_protocol("NVMe"), DeviceInterface::Nvme);
    assert_eq!(DeviceInterface::from_protocol("ATA"), DeviceInterface::Unsupported);
    assert_eq!(DeviceInterface::from_protocol("scsi "), DeviceInterface::Unsupported);
    assert_eq!(DeviceInterface::from_protocol(""), DeviceInterface::Unsupported);
    let d = BasicDeviceInfo { name: "/dev/sdb".to_string(), protocol: DeviceInterface::Nvme };
    assert_eq!(d.protocol, DeviceInterface::Nvme);
}

#[test]
fn smart_error_messages() {
    assert_eq!(
        SmartCheckError::ScanError("x".to_string()).message(),
        "Unable to scan for drives: x"
    );
    assert_eq!(
        SmartCheckError::FormatError("y".to_string()).message(),
        "Unable to parse smartctl output: y"
    );
    assert_eq!(
        SmartCheckError::TestIncomplete("/dev/sda".to_string(), "no result logged".to_string())
            .message(),
        "Self-test on \"/dev/sda\" did not complete: no result logged"
    );
    assert_eq!(SmartCheckError::SpawnError("panicked".to_string()).message(), "panicked");
    assert_eq!(
        SmartCheckFailure::CommandFailed("/dev/sda".to_string(), "busy".to_string()).message(),
        "Failed to launch self-test on \"/dev/sda\": busy"
    );
}

#[test]
fn drives_are_read_by_interface() {
    let d = |name: &str, protocol| BasicDeviceInfo { name: name.to_string(), protocol };
    let (ata, nvme) = names_by_interface(&vec![
        d("/dev/sda", DeviceInterface::Ata),
        d("/dev/nvme0", DeviceInterface::Nvme),
        d("/dev/sdb", DeviceInterface::Unsupported),
        d("/dev/sdc", DeviceInterface::Ata),
    ]);
    assert_eq!(ata, vec!["/dev/sda".to_string(), "/dev/sdc".to_string()]);
    assert_eq!(nvme, vec!["/dev/nvme0".to_string()]);
}

#[test]
fn first_check_drive_text() {
    let d = first_check::DriveInfo {
        model_name: "ST4000DM004".to_string(),
        power_on_time: first_check::PowerOnTime { hours: 10 },
        ata_smart_data: None,
        user_capacity: first_check::UserCapacity { bytes: 4000787030016 },
        device: first_check::Device {
            name: "/dev/sdb".to_string(),
            drive_type: "sat".to_string(),
            protocol: "ATA".to_string(),
        },
    };
    assert_eq!(d.render("5"), "<b>ST4000DM004</b>\n3.64T ATA (/dev/sdb)\nTime to test: 5 min");
}
