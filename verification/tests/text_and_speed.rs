use cosmic_sys_monitor::panel::{format_speed, ram_detail};

fn speed_by_floats(bytes: u64) -> String {
    if bytes < 1024 {
        format!("{} B/s", bytes)
    } else if bytes < 1024 * 1024 {
        format!("{:.1} KB/s", bytes as f64 / 1024.0)
    } else {
        format!("{:.1} MB/s", bytes as f64 / 1024.0 / 1024.0)
    }
}

fn sample_values() -> Vec<u64> {
    let mut v: Vec<u64> = vec![
        0,
        1,
        9,
        10,
        512,
        1023,
        1024,
        1025,
        1126,
        1127,
        1280,
        1536,
        1792,
        3328,
        10_240,
        1_048_000,
        1_048_575,
        1_048_576,
        1_310_720,
        1_363_148,
        1_415_577,
        10_485_760,
        123_456_789,
        (1u64 << 53) - 1,
        1u64 << 53,
        (1u64 << 53) + 1,
        (1u64 << 53) + 3,
        (1u64 << 54) + 2,
        (1u64 << 54) + 6,
        u64::MAX - 1024,
        u64::MAX - 1,
        u64::MAX,
    ];
    for k in 0..64u32 {
        let p = 1u64 << k;
        v.push(p);
        v.push(p.wrapping_sub(1));
        v.push(p.wrapping_add(p / 2));
    }
    // values whose tenths fall exactly half-way
    for q in 0..2000u64 {
        v.push((1024 * q + 512) / 10 * 10 / 10 * 1);
        v.push(1024 * 10 + 51 * q);
        v.push(1_048_576 + 52_429 * q);
        v.push(1280 + 10_240 * q);
        v.push(1_310_720 + 104_857_6 * q);
    }
    let mut x: u64 = 0x9E37_79B9_7F4A_7C15;
    for _ in 0..20_000 {
        x ^= x << 13;
        x ^= x >> 7;
        x ^= x << 17;
        v.push(x);
        v.push(x >> (x % 64));
    }
    v
}

#[test]
fn format_speed_writes_whole_bytes_below_a_kilobyte() {
    assert_eq!(format_speed(0), "0 B/s");
    assert_eq!(format_speed(512), "512 B/s");
    assert_eq!(format_speed(1023), "1023 B/s");
}

#[test]
fn format_speed_writes_kilobytes_with_one_decimal() {
    assert_eq!(format_speed(1024), "1.0 KB/s");
    assert_eq!(format_speed(1536), "1.5 KB/s");
    assert_eq!(format_speed(1_048_575), "1024.0 KB/s");
}

#[test]
fn format_speed_writes_megabytes_with_one_decimal() {
    assert_eq!(format_speed(1_048_576), "1.0 MB/s");
    assert_eq!(format_speed(10_485_760), "10.0 MB/s");
    assert_eq!(format_speed(123_456_789), "117.7 MB/s");
}

#[test]
fn format_speed_rounds_exact_halves_to_even() {
    // 1280 bytes are exactly 1.25 KB
    assert_eq!(format_speed(1280), format!("{:.1} KB/s", 1280f64 / 1024.0));
    // 3328 bytes are exactly 3.25 KB
    assert_eq!(format_speed(3328), format!("{:.1} KB/s", 3328f64 / 1024.0));
    assert_eq!(format_speed(1792), "1.8 KB/s");
}

#[test]
fn format_speed_agrees_with_float_formatting() {
    for b in sample_values() {
        assert_eq!(format_speed(b), speed_by_floats(b), "bytes = {}", b);
    }
}

#[test]
fn format_speed_of_the_largest_count() {
    assert_eq!(format_speed(u64::MAX), speed_by_floats(u64::MAX));
    assert_eq!(format_speed(u64::MAX), "17592186044416.0 MB/s");
}

#[test]
fn ram_detail_agrees_with_float_formatting() {
    for used in sample_values().into_iter().step_by(7) {
        let total = used | 1;
        let expected = format!(
            " | {:.1}/{:.1} GB",
            used as f64 / 1073741824.0,
            total as f64 / 1073741824.0
        );
        assert_eq!(ram_detail(used, total), Some(expected), "used = {}", used);
    }
}

#[test]
fn ram_detail_is_absent_without_a_total() {
    assert_eq!(ram_detail(5, 0), None);
}

#[test]
fn ram_detail_example() {
    assert_eq!(
        ram_detail(8 * 1024 * 1024 * 1024, 16 * 1024 * 1024 * 1024),
        Some(" | 8.0/16.0 GB".to_string())
    );
    assert_eq!(ram_detail(1 << 30, 1 << 30), Some(" | 1.0/1.0 GB".to_string()));
    assert_eq!(
        ram_detail(3 * (1 << 29), 7 * (1 << 28)),
        Some(" | 1.5/1.8 GB".to_string())
    );
}

#[test]
fn shown_kilobytes_are_within_half_a_tenth() {
    for b in [1024u64, 1126, 1127, 1280, 5000, 99_999, 1_048_575] {
        let s = format_speed(b);
        let shown: f64 = s.trim_end_matches(" KB/s").parse().unwrap();
        assert!((shown * 1024.0 - b as f64).abs() <= 51.2 + 1e-9, "bytes = {}", b);
    }
}

fn shown_value(text: &str) -> f64 {
    let (number, unit) = text.split_once(' ').unwrap();
    let n: f64 = number.parse().unwrap();
    match unit {
        "B/s" => n,
        "KB/s" => n * 1024.0,
        "MB/s" => n * 1048576.0,
        _ => panic!("unit {}", unit),
    }
}

#[test]
fn the_shown_rate_never_falls() {
    let mut v = sample_values();
    v.sort();
    for w in v.windows(2) {
        assert!(
            shown_value(&format_speed(w[0])) <= shown_value(&format_speed(w[1])),
            "{} then {}",
            w[0],
            w[1]
        );
    }
    assert_eq!(format_speed(1_048_575), "1024.0 KB/s");
    assert_eq!(format_speed(1_048_576), "1.0 MB/s");
}
