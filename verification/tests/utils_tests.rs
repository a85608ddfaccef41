use triplewrapper_core::utils::{format_bytes, format_duration, sanitize_filename};
use std::time::Duration;

#[test]
fn test_format_bytes() {
    assert_eq!(format_bytes(500), "500 B");
    assert_eq!(format_bytes(1024), "1.0 KB");
    assert_eq!(format_bytes(1024 * 1024), "1.0 MB");
    assert_eq!(format_bytes(1024 * 1024 * 1024), "1.0 GB");
    assert_eq!(format_bytes(1536 * 1024 * 1024), "1.5 GB");
}

#[test]
fn test_format_duration() {
    assert_eq!(format_duration(Duration::from_secs(30).as_secs()), "30s");
    assert_eq!(format_duration(Duration::from_secs(90).as_secs()), "1m 30s");
    assert_eq!(format_duration(Duration::from_secs(3661).as_secs()), "1h 1m");
    assert_eq!(format_duration(Duration::from_secs(90061).as_secs()), "1d 1h");
}

#[test]
fn test_sanitize_filename() {
    assert_eq!(sanitize_filename("normal.txt"), "normal.txt");
    assert_eq!(sanitize_filename("bad/name.txt"), "bad_name.txt");
    assert_eq!(sanitize_filename("file:name.txt"), "file_name.txt");
    assert_eq!(sanitize_filename("file\0name.txt"), "file_name.txt");
}

/// The reference: what `{:.1}` of the double gives, as the original computes.
fn float_reference(bytes: u64) -> String {
    const UNITS: &[&str] = &["B", "KB", "MB", "GB", "TB", "PB"];
    let mut size = bytes as f64;
    let mut unit_idx = 0;
    while size >= 1024.0 && unit_idx < UNITS.len() - 1 {
        size /= 1024.0;
        unit_idx += 1;
    }
    if unit_idx == 0 {
        format!("{} {}", bytes, UNITS[unit_idx])
    } else {
        format!("{:.1} {}", size, UNITS[unit_idx])
    }
}

#[test]
fn format_bytes_matches_float_formatting_on_edges() {
    let mut samples: Vec<u64> = vec![
        0, 1, 1023, 1024, 1025, 1075, 1076, 1280, 1331, 1536, 10239, 10240, 1048575, 1048576,
        1_099_511_627_776, 1_125_899_906_842_623, 1_125_899_906_842_624, u64::MAX, u64::MAX - 1,
        (1u64 << 53) - 1, 1u64 << 53, (1u64 << 53) + 1, (1u64 << 60) + 12345,
    ];
    let mut x: u64 = 0x9E37_79B9_7F4A_7C15;
    for _ in 0..2000 {
        x ^= x << 13;
        x ^= x >> 7;
        x ^= x << 17;
        samples.push(x >> (x % 64));
    }
    for b in samples {
        assert_eq!(format_bytes(b), float_reference(b), "bytes = {b}");
    }
}

#[test]
fn format_bytes_ties_round_to_even() {
    // 1280 B is exactly 1.25 KB: half-way, rounded to the even digit.
    assert_eq!(format_bytes(1280), "1.2 KB");
    // 1.75 KB rounds up to the even 1.8.
    assert_eq!(format_bytes(1792), "1.8 KB");
    assert_eq!(format_bytes(u64::MAX), "16384.0 PB");
}

#[test]
fn format_duration_boundaries() {
    assert_eq!(format_duration(0), "0s");
    assert_eq!(format_duration(59), "59s");
    assert_eq!(format_duration(60), "1m 0s");
    assert_eq!(format_duration(3599), "59m 59s");
    assert_eq!(format_duration(3600), "1h 0m");
    assert_eq!(format_duration(86399), "23h 59m");
    assert_eq!(format_duration(86400), "1d 0h");
}

#[test]
fn sanitize_replaces_reserved_and_control_characters() {
    assert_eq!(sanitize_filename("a\\b*c?d\"e<f>g|h"), "a_b_c_d_e_f_g_h");
    assert_eq!(sanitize_filename("tab\there\u{7f}\u{85}"), "tab_here__");
    assert_eq!(sanitize_filename("café ñ.txt"), "café ñ.txt");
    let once = sanitize_filename("x/y:z");
    assert_eq!(sanitize_filename(&once), once);
}
