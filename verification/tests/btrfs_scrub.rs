use telemetroid::btrfs::btrfs_error::BtrfsError;
use telemetroid::btrfs::btrfs_filesystem::BtrfsFilesystem;
use telemetroid::btrfs::btrfs_interface::{dedupe_by_uuid, parse_scrub_status_output};
use telemetroid::btrfs::scrub_report::ScrubReport;
use telemetroid::btrfs::scrub_result::{parse_overflows, ScrubResult, ScrubStatus};
use telemetroid::command_runner::CommandError;

const HEALTHY: &str = "UUID:             4e1b3c0a-2f7d-4c55-9a1e-0b6d2c7f9e10
Scrub started:    Mon Jan  1 12:00:00 2024
Status:           finished
Duration:         1:02:05
\tdata_extents_scrubbed: 1000
\ttree_extents_scrubbed: 50
\tdata_bytes_scrubbed: 1073741824
\ttree_bytes_scrubbed: 1048576
\tread_errors: 0
\tcsum_errors: 0
\tverify_errors: 0
\tno_csum: 0
\tcsum_discards: 0
\tsuper_errors: 0
\tmalloc_errors: 0
\tuncorrectable_errors: 0
\tunverified_errors: 0
\tcorrected_errors: 0
\tlast_physical: 1234
";

fn with_line(key: &str, value: &str) -> String {
    HEALTHY
        .lines()
        .map(|l| {
            if l.trim_start().starts_with(&format!("{}:", key)) {
                format!("{}: {}", key, value)
            } else {
                l.to_string()
            }
        })
        .collect::<Vec<_>>()
        .join("\n")
}

fn without_line(key: &str) -> String {
    HEALTHY
        .lines()
        .filter(|l| !l.trim_start().starts_with(&format!("{}:", key)))
        .collect::<Vec<_>>()
        .join("\n")
}

fn format_error(r: Result<ScrubResult, BtrfsError>) -> String {
    match r {
        Err(BtrfsError::FormatError(m)) => m,
        Err(other) => panic!("unexpected error {:?}", other),
        Ok(v) => panic!("unexpected success {:?}", v),
    }
}

#[test]
fn parses_a_finished_scrub() {
    let r = ScrubResult::parse(HEALTHY).unwrap();
    assert_eq!(r.uuid, "4e1b3c0a-2f7d-4c55-9a1e-0b6d2c7f9e10");
    assert_eq!(r.started, "Mon Jan  1 12:00:00 2024");
    assert!(matches!(r.status, ScrubStatus::Finished));
    assert_eq!(r.duration, 3600 + 2 * 60 + 5);
    assert_eq!(r.data_bytes_scrubbed, 1073741824);
    assert_eq!(r.tree_bytes_scrubbed, 1048576);
    assert_eq!(r.corrected_errors, 0);
    assert!(!r.has_unrecoverable_errors());
    assert!(r.is_healthy());
    assert!(r.error_summary().is_empty());
    assert_eq!(r.render(), "✅ Healthy · finished · 1.00G scrubbed");
}

#[test]
fn parses_every_status() {
    for (text, shown) in [
        ("running", "running"),
        ("finished", "finished"),
        ("aborted", "aborted"),
        ("interrupted", "interrupted"),
        ("paused", "paused"),
    ] {
        let r = ScrubResult::parse(&with_line("Status", text)).unwrap();
        assert_eq!(r.status.render(), shown);
    }
    let r = ScrubResult::parse(&with_line("Status", "paused")).unwrap();
    assert!(matches!(r.status, ScrubStatus::Unknown(ref s) if s == "paused"));
    assert!(!r.is_healthy());
    assert_eq!(r.render(), "ℹ️ Incomplete · paused · 1.00G scrubbed");
}

#[test]
fn repaired_and_broken_scrubs() {
    let text = with_line("csum_errors", "3");
    let text = text.replace("corrected_errors: 0", "corrected_errors: 3");
    let r = ScrubResult::parse(&text).unwrap();
    assert!(r.is_healthy());
    assert_eq!(r.error_summary(), vec!["csum: 3".to_string(), "corrected: 3".to_string()]);
    assert_eq!(
        r.render(),
        "⚠️ Repaired · finished · 1.00G scrubbed\n⚠️ csum: 3 · corrected: 3"
    );

    let text = HEALTHY.replace("uncorrectable_errors: 0", "uncorrectable_errors: 2");
    let r = ScrubResult::parse(&text).unwrap();
    assert!(r.has_unrecoverable_errors());
    assert!(!r.is_healthy());
    assert_eq!(
        r.render(),
        "❌ Errors · finished · 1.00G scrubbed\n⚠️ uncorrectable: 2"
    );

    let r = ScrubResult::parse(&with_line("super_errors", "1")).unwrap();
    assert!(r.has_unrecoverable_errors());
    let r = ScrubResult::parse(&with_line("verify_errors", "1")).unwrap();
    assert!(r.has_unrecoverable_errors());
    let r = ScrubResult::parse(&with_line("read_errors", "+7")).unwrap();
    assert_eq!(r.read_errors, 7);
    assert!(!r.has_unrecoverable_errors());
    assert_eq!(r.error_summary(), vec!["read: 7".to_string()]);
}

#[test]
fn missing_fields_are_reported_in_order() {
    assert_eq!(format_error(ScrubResult::parse(&without_line("UUID"))), "missing field `UUID`");
    assert_eq!(
        format_error(ScrubResult::parse(&without_line("Scrub started"))),
        "missing field `Scrub started`"
    );
    assert_eq!(format_error(ScrubResult::parse(&without_line("Status"))), "missing field `Status`");
    assert_eq!(
        format_error(ScrubResult::parse(&without_line("Duration"))),
        "missing field `Duration`"
    );
    assert_eq!(
        format_error(ScrubResult::parse(&without_line("corrected_errors"))),
        "missing field `corrected_errors`"
    );
    assert_eq!(format_error(ScrubResult::parse("")), "missing field `UUID`");
}

#[test]
fn bad_numbers_and_durations() {
    assert_eq!(
        format_error(ScrubResult::parse(&with_line("read_errors", "many"))),
        "`read_errors` is not a valid number"
    );
    assert_eq!(
        format_error(ScrubResult::parse(&with_line("data_bytes_scrubbed", "-1"))),
        "`data_bytes_scrubbed` is not a valid number"
    );
    assert_eq!(
        format_error(ScrubResult::parse(&with_line("tree_bytes_scrubbed", "18446744073709551616"))),
        "`tree_bytes_scrubbed` is not a valid number"
    );
    assert_eq!(
        format_error(ScrubResult::parse(&with_line("Duration", "1:02"))),
        "invalid duration `1:02`"
    );
    assert_eq!(
        format_error(ScrubResult::parse(&with_line("Duration", "1:x:03"))),
        "invalid duration `1:x:03`"
    );
    assert_eq!(
        format_error(ScrubResult::parse(&with_line("Duration", "0:00:01:00"))),
        "invalid duration `0:00:01:00`"
    );
    // The duration is checked before any counter.
    let text = with_line("Duration", "bad").replace("read_errors: 0", "read_errors: x");
    assert_eq!(format_error(ScrubResult::parse(&text)), "invalid duration `bad`");
}

#[test]
fn the_last_of_repeated_keys_wins() {
    let text = format!("{}read_errors: 9\n", HEALTHY);
    let r = ScrubResult::parse(&text).unwrap();
    assert_eq!(r.read_errors, 9);
}

#[test]
fn duration_overflow_is_detected() {
    assert!(!parse_overflows(HEALTHY));
    assert!(parse_overflows(&with_line("Duration", "18446744073709551615:00:00")));
    assert!(!parse_overflows(&with_line("Duration", "5124095576030431:00:15")));
    let r = ScrubResult::parse(&with_line("Duration", "5124095576030431:00:15")).unwrap();
    assert_eq!(r.duration, 5124095576030431 * 3600 + 15);
    assert!(!parse_overflows(&without_line("UUID")));
}

#[test]
fn scrub_output_bytes() {
    let r = parse_scrub_status_output(HEALTHY.as_bytes().to_vec()).unwrap();
    assert_eq!(r.duration, 3725);
    let mut bad = HEALTHY.as_bytes().to_vec();
    bad.insert(0, 0xff);
    let m = format_error(parse_scrub_status_output(bad.clone()));
    assert_eq!(m, String::from_utf8(bad).unwrap_err().to_string());
    assert_eq!(m, "invalid utf-8 sequence of 1 bytes from index 0");
}

#[test]
fn dedupe_keeps_the_first_of_each_uuid() {
    let fs = |target: &str, uuid: &str| BtrfsFilesystem {
        target: target.to_string(),
        source: format!("/dev/{}", target.trim_start_matches('/')),
        uuid: uuid.to_string(),
    };
    let kept = dedupe_by_uuid(vec![
        fs("/", "a"),
        fs("/home", "a"),
        fs("/data", "b"),
        fs("/snapshots", "b"),
        fs("/backup", "c"),
    ]);
    let targets: Vec<&str> = kept.iter().map(|f| f.target.as_str()).collect();
    assert_eq!(targets, vec!["/", "/data", "/backup"]);
    assert!(dedupe_by_uuid(Vec::new()).is_empty());
}

#[test]
fn error_messages() {
    assert_eq!(
        BtrfsError::FormatError("x".to_string()).message(),
        "Unable to parse btrfs output: x"
    );
    assert_eq!(
        BtrfsError::ScrubError("busy".to_string()).message(),
        "Unable to run btrfs scrub: busy"
    );
    assert_eq!(BtrfsError::SpawnError("task panicked".to_string()).message(), "task panicked");
    assert_eq!(
        BtrfsError::AlreadyRunningError().message(),
        "A btrfs scrub is already in progress"
    );
    let signal = CommandError::Signal {
        cmd: "btrfs scrub start -B /".to_string(),
        detail: "process terminated by signal".to_string(),
    };
    assert_eq!(
        BtrfsError::CommandExecutionError(signal).message(),
        "`btrfs scrub start -B /` terminated by signal: process terminated by signal"
    );
}

#[test]
fn report_rendering() {
    let empty = ScrubReport { results: Vec::new() };
    assert!(empty.is_empty());
    assert_eq!(empty.len(), 0);
    assert_eq!(empty.render(), "No btrfs filesystems found\n");

    let report = ScrubReport {
        results: vec![
            ("/".to_string(), ScrubResult::parse(HEALTHY)),
            ("/data".to_string(), Err(BtrfsError::ScrubError("busy".to_string()))),
        ],
    };
    assert!(!report.is_empty());
    assert_eq!(report.len(), 2);
    assert_eq!(
        report.render(),
        "1. <b>/</b>\n✅ Healthy · finished · 1.00G scrubbed\n\n2. <b>/data</b>\nFailed: Unable to run btrfs scrub: busy\n\n"
    );
}
