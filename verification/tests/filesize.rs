use rusty_rich::filesize::{format_size, format_speed};

#[test]
fn test_format_size_zero() {
    assert_eq!(format_size(0, None), "0 B");
}

#[test]
fn test_format_size_bytes() {
    assert_eq!(format_size(500, None), "500 B");
    assert_eq!(format_size(1023, None), "1023 B");
}

#[test]
fn test_format_size_kb() {
    assert_eq!(format_size(1024, None), "1.0 KB");
    assert_eq!(format_size(2048, None), "2.0 KB");
    assert_eq!(format_size(1536, None), "1.5 KB");
}

#[test]
fn test_format_size_mb() {
    assert_eq!(format_size(1048576, None), "1.0 MB");
    assert_eq!(format_size(2097152, None), "2.0 MB");
}

#[test]
fn test_format_size_gb() {
    assert_eq!(format_size(1073741824, None), "1.0 GB");
}

#[test]
fn test_format_size_precision() {
    assert_eq!(format_size(1536, Some(2)), "1.50 KB");
    assert_eq!(format_size(1536, Some(0)), "2 KB");
}

#[test]
fn test_format_speed_bytes() {
    assert_eq!(format_speed(0), "0 B/s");
    assert_eq!(format_speed(500), "500 B/s");
    assert_eq!(format_speed(1023), "1023 B/s");
}

#[test]
fn test_format_speed_kb() {
    assert_eq!(format_speed(1024), "1.0 KB/s");
    assert_eq!(format_speed(2048), "2.0 KB/s");
}

#[test]
fn test_format_speed_mb() {
    assert_eq!(format_speed(1048576), "1.0 MB/s");
}

#[test]
fn test_format_size_matches_float_formatting() {
    // The exact integer computation agrees with formatting the double.
    for &b in &[1024u64, 1280, 1300, 3000, 123456, 987654321, 5_000_000_000_000, u64::MAX] {
        for p in 0..4usize {
            let mut size = b as f64;
            let mut idx = 0;
            let units = ["B", "KB", "MB", "GB", "TB", "PB"];
            while size >= 1024.0 && idx < 5 {
                size /= 1024.0;
                idx += 1;
            }
            let expected = format!("{:.prec$} {}", size, units[idx], prec = p);
            assert_eq!(format_size(b, Some(p)), expected);
        }
    }
}

#[test]
fn test_format_size_petabytes_cap() {
    assert_eq!(format_size(1u64 << 60, None), "1024.0 PB");
}
