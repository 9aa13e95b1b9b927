use windows_clear::units::{format_bytes, format_duration, GB, KB, MB};

fn in_floating_point(bytes: u64) -> String {
    if bytes >= GB {
        format!("{:.2} GB", bytes as f64 / GB as f64)
    } else if bytes >= MB {
        format!("{:.2} MB", bytes as f64 / MB as f64)
    } else if bytes >= KB {
        format!("{:.2} KB", bytes as f64 / KB as f64)
    } else {
        format!("{} B", bytes)
    }
}

#[test]
fn shows_bytes() {
    assert_eq!(format_bytes(0), "0 B");
    assert_eq!(format_bytes(1023), "1023 B");
    assert_eq!(format_bytes(1024), "1.00 KB");
    assert_eq!(format_bytes(1536), "1.50 KB");
    assert_eq!(format_bytes(1048575), "1024.00 KB");
    assert_eq!(format_bytes(1048576), "1.00 MB");
    assert_eq!(format_bytes(5 * GB + GB / 4), "5.25 GB");
    assert_eq!(format_bytes(u64::MAX), "17179869184.00 GB");
}

#[test]
fn rounds_ties_to_even() {
    // 1152 / 1024 is 1.125 and 1408 / 1024 is 1.375, both exactly between two hundredths.
    assert_eq!(format_bytes(1152), "1.12 KB");
    assert_eq!(format_bytes(1408), "1.38 KB");
    assert_eq!(format_bytes(1152), in_floating_point(1152));
    assert_eq!(format_bytes(1408), in_floating_point(1408));
}

#[test]
fn rounds_like_floating_point() {
    let mut n: u64 = 1;
    for step in 0..4000u64 {
        n = n.wrapping_mul(6364136223846793005).wrapping_add(1442695040888963407 + step);
        for shift in [0, 8, 16, 24, 32, 40, 48, 54] {
            let bytes = n >> shift;
            assert_eq!(format_bytes(bytes), in_floating_point(bytes));
        }
    }
}

#[test]
fn rounds_like_floating_point_at_the_edges() {
    for edge in [KB, MB, GB, 1 << 52, 1 << 53, 1 << 54, 1 << 60, 1 << 63] {
        for near in 0..600 {
            assert_eq!(format_bytes(edge + near), in_floating_point(edge + near));
            assert_eq!(format_bytes(edge - near), in_floating_point(edge - near));
        }
    }
    for near in 0..5000 {
        assert_eq!(format_bytes(u64::MAX - near), in_floating_point(u64::MAX - near));
    }
}

#[test]
fn shows_durations() {
    assert_eq!(format_duration(0), "0s");
    assert_eq!(format_duration(59), "59s");
    assert_eq!(format_duration(60), "1m 0s");
    assert_eq!(format_duration(61), "1m 1s");
    assert_eq!(format_duration(3599), "59m 59s");
    assert_eq!(format_duration(3600), "1h 0m");
    assert_eq!(format_duration(3661), "1h 1m");
    assert_eq!(format_duration(90061), "25h 1m");
    assert_eq!(format_duration(u64::MAX), format!("{}h {}m", u64::MAX / 3600, u64::MAX % 3600 / 60));
}
