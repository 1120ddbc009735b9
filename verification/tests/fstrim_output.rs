use telemetroid::command_runner::CommandError;
use telemetroid::fstrim::fstrim_error::FstrimError;
use telemetroid::fstrim::fstrim_interface::{parse_trim_output, parse_trim_text};
use telemetroid::fstrim::trim_report::TrimReport;
use telemetroid::fstrim::trim_result::TrimResult;

fn format_error<T>(r: Result<T, FstrimError>) -> String {
    match r {
        Err(FstrimError::FormatError(m)) => m,
        Err(other) => panic!("unexpected error {:?}", other),
        Ok(_) => panic!("unexpected success"),
    }
}

#[test]
fn parses_a_line_with_a_device() {
    let r = TrimResult::parse("/home: 1.5 GiB (1610612736 bytes) trimmed on /dev/sda2").unwrap();
    assert_eq!(r.mount_point, "/home");
    assert_eq!(r.device.as_deref(), Some("/dev/sda2"));
    assert_eq!(r.bytes, 1610612736);
    assert_eq!(r.render(), "✂️ 1.50G trimmed · /dev/sda2");
}

#[test]
fn parses_a_line_without_a_device() {
    let r = TrimResult::parse("/boot: 200 MiB (209715200 bytes) trimmed").unwrap();
    assert_eq!(r.mount_point, "/boot");
    assert_eq!(r.device, None);
    assert_eq!(r.bytes, 209715200);
    assert_eq!(r.render(), "✂️ 200.00M trimmed");
}

#[test]
fn mount_points_with_separators_stay_whole() {
    let r = TrimResult::parse("/mnt/my disk: (x): 0 B (0 bytes) trimmed on /dev/sdb1").unwrap();
    assert_eq!(r.mount_point, "/mnt/my disk: (x)");
    assert_eq!(r.bytes, 0);
    assert_eq!(r.render(), "✂️ 0B trimmed · /dev/sdb1");
}

#[test]
fn rejects_unrecognised_lines() {
    for line in [
        "fstrim: /mnt: the discard operation is not supported",
        "/home: 1.5 GiB 1610612736 bytes) trimmed",
        "/home 1.5 GiB (1610612736 bytes) trimmed",
        "/home: 1.5 GiB (1610612736 bytes) discarded",
        "/home: 1.5 GiB (many bytes) trimmed",
        "/home: 1.5 GiB (-5 bytes) trimmed",
    ] {
        assert_eq!(
            format_error(TrimResult::parse(line)),
            format!("unrecognised output line `{}`", line)
        );
    }
}

#[test]
fn parses_the_whole_output() {
    let text = "  /: 10 GiB (10737418240 bytes) trimmed on /dev/nvme0n1p2\n\n\
                /boot/efi: 500 MiB (524288000 bytes) trimmed on /dev/nvme0n1p1\r\n   \n";
    let report = parse_trim_text(text).unwrap();
    assert_eq!(report.len(), 2);
    assert!(!report.is_empty());
    assert_eq!(report.results[0].mount_point, "/");
    assert_eq!(report.results[1].mount_point, "/boot/efi");
    assert_eq!(report.total_bytes(), 10737418240 + 524288000);
    assert_eq!(
        report.render(),
        "1. <b>/</b>\n✂️ 10.00G trimmed · /dev/nvme0n1p2\n\n\
         2. <b>/boot/efi</b>\n✂️ 500.00M trimmed · /dev/nvme0n1p1\n\n\
         <b>Total:</b> 10.49G\n"
    );
}

#[test]
fn the_first_bad_line_fails_the_whole_output() {
    let text = "/: 1 GiB (1073741824 bytes) trimmed\nnonsense\n/x: bad\n";
    assert_eq!(format_error(parse_trim_text(text)), "unrecognised output line `nonsense`");
}

#[test]
fn empty_output_gives_an_empty_report() {
    let report = parse_trim_text("\n  \n").unwrap();
    assert!(report.is_empty());
    assert_eq!(report.total_bytes(), 0);
    assert_eq!(report.render(), "No filesystems supporting discard found\n");
    let single = parse_trim_text("/: 1 KiB (1024 bytes) trimmed").unwrap();
    assert_eq!(single.render(), "1. <b>/</b>\n✂️ 1.00K trimmed\n\n");
}

#[test]
fn output_bytes_must_be_utf8() {
    let report = parse_trim_output(b"/: 1 KiB (1024 bytes) trimmed\n".to_vec()).unwrap();
    assert_eq!(report.total_bytes(), 1024);
    let bad = vec![b'/', b':', 0xc3, 0x28];
    assert_eq!(
        format_error(parse_trim_output(bad.clone())),
        String::from_utf8(bad).unwrap_err().to_string()
    );
}

#[test]
fn trim_error_messages() {
    assert_eq!(
        FstrimError::FormatError("x".to_string()).message(),
        "Unable to parse fstrim output: x"
    );
    assert_eq!(FstrimError::SpawnError("gone".to_string()).message(), "gone");
    let exit = || CommandError::Exit {
        cmd: "fstrim -a -v --quiet-unsupported".to_string(),
        code: 64,
        detail: "some filesystems failed".to_string(),
    };
    let e = FstrimError::CommandExecutionError(exit());
    assert_eq!(e.message(), exit().message());
    assert_eq!(
        e.message(),
        "`fstrim -a -v --quiet-unsupported` failed (exit 64): some filesystems failed"
    );
    let _ = TrimReport { results: Vec::new() };
}
