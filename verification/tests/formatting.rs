use rustyclean::cleaning::{format_bytes, CleaningError, CleaningSummary};
use rustyclean::decimal::{decimal_digits, round_div};
use rustyclean::monitoring;

fn text(chars: Vec<char>) -> String {
    chars.into_iter().collect()
}

/// The same count by floating-point numbers.
fn by_floats(bytes: u64) -> String {
    let units = ["Bytes", "KB", "MB", "GB", "TB"];
    let mut size = bytes as f64;
    let mut unit = 0;
    while size >= 1024.0 && unit < units.len() - 1 {
        size /= 1024.0;
        unit += 1;
    }
    if size < 10.0 && bytes > 0 {
        format!("{:.2} {}", size, units[unit])
    } else {
        format!("{:.1} {}", size, units[unit])
    }
}

fn monitor_by_floats(bytes: u64) -> String {
    let units = ["B", "KB", "MB", "GB", "TB"];
    let mut size = bytes as f64;
    let mut unit = 0;
    if bytes > 0 && bytes < 1024 * 1024 * 1024 {
        size /= 1024.0;
        unit = 1;
    }
    while size >= 1024.0 && unit < units.len() - 1 {
        size /= 1024.0;
        unit += 1;
    }
    format!("{:.2} {}", size, units[unit])
}

#[test]
fn format_bytes_samples() {
    assert_eq!(format_bytes(0), "0.0 Bytes");
    assert_eq!(format_bytes(1), "1.00 Bytes");
    assert_eq!(format_bytes(5), "5.00 Bytes");
    assert_eq!(format_bytes(9), "9.00 Bytes");
    assert_eq!(format_bytes(10), "10.0 Bytes");
    assert_eq!(format_bytes(1023), "1023.0 Bytes");
    assert_eq!(format_bytes(1024), "1.00 KB");
    assert_eq!(format_bytes(1536), "1.50 KB");
    assert_eq!(format_bytes(10239), "10.00 KB");
    assert_eq!(format_bytes(10240), "10.0 KB");
    assert_eq!(format_bytes(1048575), "1024.0 KB");
    assert_eq!(format_bytes(5 * 1048576), "5.00 MB");
    assert_eq!(format_bytes(1099511627776), "1.00 TB");
    assert_eq!(format_bytes(u64::MAX), "16777216.0 TB");
}

#[test]
fn format_bytes_rounds_ties_to_even() {
    // 1152 / 1024 = 1.125 and 1408 / 1024 = 1.375
    assert_eq!(format_bytes(1152), "1.12 KB");
    assert_eq!(format_bytes(1408), "1.38 KB");
    // 10752 / 1024 = 10.5 exactly, with one place
    assert_eq!(format_bytes(10752), "10.5 KB");
    // 10.25 and 10.75 with one place
    assert_eq!(format_bytes(10496), "10.2 KB");
    assert_eq!(format_bytes(11008), "10.8 KB");
}

#[test]
fn format_bytes_agrees_with_floating_point() {
    let mut n: u64 = 0;
    let mut step: u64 = 1;
    while n < (1u64 << 52) {
        assert_eq!(format_bytes(n), by_floats(n), "for {}", n);
        assert_eq!(monitoring::format_bytes(n), monitor_by_floats(n), "for {}", n);
        n += step;
        step = step + step / 7 + 1;
    }
    for k in 0..5000u64 {
        let n = 1000 + k * 13;
        assert_eq!(format_bytes(n), by_floats(n), "for {}", n);
        assert_eq!(monitoring::format_bytes(n), monitor_by_floats(n), "for {}", n);
        let m = (1u64 << 20) - 2500 + k;
        assert_eq!(format_bytes(m), by_floats(m), "for {}", m);
        assert_eq!(monitoring::format_bytes(m), monitor_by_floats(m), "for {}", m);
    }
}

#[test]
fn monitor_format_bytes_samples() {
    assert_eq!(monitoring::format_bytes(0), "0.00 B");
    assert_eq!(monitoring::format_bytes(1), "0.00 KB");
    assert_eq!(monitoring::format_bytes(512), "0.50 KB");
    assert_eq!(monitoring::format_bytes(1024), "1.00 KB");
    assert_eq!(monitoring::format_bytes(1536), "1.50 KB");
    assert_eq!(monitoring::format_bytes(1048576), "1.00 MB");
    assert_eq!(monitoring::format_bytes(1073741824), "1.00 GB");
    assert_eq!(monitoring::format_bytes(16 * 1073741824), "16.00 GB");
    assert_eq!(monitoring::format_bytes(1099511627776), "1.00 TB");
    assert_eq!(monitoring::format_bytes(u64::MAX), "16777216.00 TB");
}

#[test]
fn decimal_digits_and_rounding() {
    assert_eq!(text(decimal_digits(0)), "0");
    assert_eq!(text(decimal_digits(9)), "9");
    assert_eq!(text(decimal_digits(10)), "10");
    assert_eq!(text(decimal_digits(u64::MAX)), "18446744073709551615");
    assert_eq!(round_div(5, 2), 2);
    assert_eq!(round_div(7, 2), 4);
    assert_eq!(round_div(9, 4), 2);
    assert_eq!(round_div(11, 4), 3);
    assert_eq!(round_div(0, 7), 0);
    assert_eq!(round_div(u128::MAX, 1), u128::MAX);
}

#[test]
fn formatted_size_of_a_summary() {
    let mut summary = CleaningSummary::new();
    assert_eq!(summary.formatted_size(), "0.0 Bytes");
    summary.total_size = 1536;
    assert_eq!(summary.formatted_size(), "1.50 KB");
}

#[test]
fn success_rate_in_whole_percent() {
    let mut summary = CleaningSummary::new();
    assert_eq!(summary.success_rate_percent(), 100);
    summary.deleted_files = 10;
    summary.skipped_files = 5;
    summary.add_error(CleaningError::PermissionDenied("test".to_string()));
    assert_eq!(summary.success_rate_percent(), 62);
    summary.deleted_files = usize::MAX;
    summary.skipped_files = usize::MAX;
    assert_eq!(summary.success_rate_percent(), 49);
    summary.deleted_files = 0;
    assert_eq!(summary.success_rate_percent(), 0);
}

#[test]
fn errors_in_words() {
    assert_eq!(
        CleaningError::DirectoryNotFound("C:\\x".to_string()).message(),
        "Verzeichnis nicht gefunden: C:\\x"
    );
    assert_eq!(
        CleaningError::PermissionDenied("C:\\x".to_string()).message(),
        "Keine Berechtigung: C:\\x"
    );
    assert_eq!(
        CleaningError::FileInUse("C:\\x".to_string()).message(),
        "Datei in Verwendung: C:\\x"
    );
    assert_eq!(
        CleaningError::IoError("C:\\x".to_string(), "kaputt".to_string()).message(),
        "IO-Fehler bei C:\\x: kaputt"
    );
    assert_eq!(
        CleaningError::InvalidPath("leer".to_string()).message(),
        "Ung\u{fc}ltiger Pfad: leer"
    );
}
