use telemetroid::info_collector::info;
use telemetroid::text_utils::{format_bytes, pluralize};

const KB: u64 = 1024;
const MB: u64 = KB * 1024;
const GB: u64 = MB * 1024;
const TB: u64 = GB * 1024;
const PB: u64 = TB * 1024;

fn expected_short(b: u64) -> String {
    if b >= PB {
        format!("{:.2}P", b as f64 / PB as f64)
    } else if b >= TB {
        format!("{:.2}T", b as f64 / TB as f64)
    } else if b >= GB {
        format!("{:.2}G", b as f64 / GB as f64)
    } else if b >= MB {
        format!("{:.2}M", b as f64 / MB as f64)
    } else if b >= KB {
        format!("{:.2}K", b as f64 / KB as f64)
    } else {
        format!("{}B", b)
    }
}

fn expected_iec(b: u64) -> String {
    if b >= TB {
        format!("{:.2} TiB", b as f64 / TB as f64)
    } else if b >= GB {
        format!("{:.2} GiB", b as f64 / GB as f64)
    } else if b >= MB {
        format!("{:.2} MiB", b as f64 / MB as f64)
    } else if b >= KB {
        format!("{:.2} KiB", b as f64 / KB as f64)
    } else {
        format!("{} B", b)
    }
}

fn samples() -> Vec<u64> {
    let mut v: Vec<u64> = vec![
        0,
        1,
        999,
        1023,
        1024,
        1025,
        1029,
        1030,
        1152,
        1536,
        2047,
        2048,
        10240,
        1048575,
        1048576,
        1572864,
        5 * MB + 5 * KB,
        GB - 1,
        GB,
        3 * GB + 123456789,
        TB - 1,
        TB,
        PB - 1,
        PB,
        PB + 1,
        (1u64 << 53) - 1,
        1u64 << 53,
        (1u64 << 53) + 1,
        (1u64 << 60) + 12345,
        u64::MAX - 1,
        u64::MAX,
    ];
    // Every value that lands exactly on a half of a hundredth of a unit.
    for unit in [KB, MB, GB, TB, PB] {
        for k in 0..400u64 {
            let b = unit + k * (unit / 200);
            v.push(b);
            v.push(b + 1);
            v.push(b - 1);
        }
    }
    // A deterministic spread over the whole range.
    let mut x: u64 = 0x9E37_79B9_7F4A_7C15;
    for _ in 0..20000 {
        x ^= x << 13;
        x ^= x >> 7;
        x ^= x << 17;
        v.push(x >> (x % 64));
    }
    v
}

#[test]
fn format_bytes_matches_float_formatting() {
    for b in samples() {
        assert_eq!(format_bytes(b), expected_short(b), "bytes = {}", b);
    }
}

#[test]
fn iec_format_bytes_matches_float_formatting() {
    for b in samples() {
        assert_eq!(info::format_bytes(b), expected_iec(b), "bytes = {}", b);
    }
}

#[test]
fn format_bytes_examples() {
    assert_eq!(format_bytes(0), "0B");
    assert_eq!(format_bytes(512), "512B");
    assert_eq!(format_bytes(1024), "1.00K");
    assert_eq!(format_bytes(1536), "1.50K");
    assert_eq!(format_bytes(1152), "1.12K");
    assert_eq!(format_bytes(5 * GB), "5.00G");
    assert_eq!(format_bytes(PB), "1.00P");
    assert_eq!(format_bytes(u64::MAX), "16384.00P");
}

#[test]
fn iec_format_bytes_examples() {
    assert_eq!(info::format_bytes(100), "100 B");
    assert_eq!(info::format_bytes(2048), "2.00 KiB");
    assert_eq!(info::format_bytes(3 * TB / 2), "1.50 TiB");
    assert_eq!(info::format_bytes(PB), "1024.00 TiB");
}

#[test]
fn usage_bar_examples() {
    assert_eq!(info::usage_bar(0, 0, 3), "⬜⬜⬜");
    assert_eq!(info::usage_bar(50, 100, 10), "🟩🟩🟩🟩🟩⬜⬜⬜⬜⬜");
    assert_eq!(info::usage_bar(65, 100, 10), "🟨🟨🟨🟨🟨🟨🟨⬜⬜⬜");
    assert_eq!(info::usage_bar(90, 100, 4), "🟥🟥🟥🟥");
    assert_eq!(info::usage_bar(100, 100, 2), "🟥🟥");
    assert_eq!(info::usage_bar(0, 100, 2), "⬜⬜");
}

#[test]
fn pluralize_examples() {
    assert_eq!(pluralize(1, "cycle"), "1 cycle");
    assert_eq!(pluralize(2, "cycle"), "2 cycles");
    assert_eq!(pluralize(0, "error"), "0 errors");
}
