use rustyclean::monitoring::{
    looks_like_system_disk, main_disk_usage, DiskInfo, DiskUsage,
};
use rustyclean::text::contains_text;

fn disk(mount: &str, total: u64, available: u64) -> DiskInfo {
    DiskInfo { mount_point: mount.to_string(), total_space: total, available_space: available }
}

fn chars(s: &str) -> Vec<char> {
    s.chars().collect()
}

const GB: u64 = 1_000_000_000;

#[test]
fn the_system_disk_comes_first() {
    let disks = vec![
        disk("D:\\", 500 * GB, 100 * GB),
        disk("C:\\", 250 * GB, 50 * GB),
        disk("E:\\", 900 * GB, 900 * GB),
    ];
    assert_eq!(main_disk_usage(&disks), DiskUsage { used: 200 * GB, total: 250 * GB });
    let disks = vec![disk("/boot", GB, 0), disk("/", 40 * GB, 10 * GB), disk("/home", 80 * GB, 0)];
    assert_eq!(main_disk_usage(&disks), DiskUsage { used: 30 * GB, total: 40 * GB });
}

#[test]
fn without_a_system_disk_the_largest_counts() {
    let disks = vec![
        disk("D:\\", 500 * GB, 100 * GB),
        disk("C:\\", 10 * GB, 5 * GB),
        disk("E:\\", 900 * GB, 1),
        disk("F:\\", 900 * GB, 2),
        disk("G:\\", 10_000 * GB, 0),
    ];
    assert_eq!(main_disk_usage(&disks), DiskUsage { used: 900 * GB - 1, total: 900 * GB });
    assert_eq!(main_disk_usage(&Vec::new()), DiskUsage { used: 0, total: 0 });
    let huge = vec![disk("X:", 10_000 * GB, 0)];
    assert_eq!(main_disk_usage(&huge), DiskUsage { used: 0, total: 0 });
}

#[test]
fn what_counts_as_the_system_disk() {
    assert!(looks_like_system_disk(&disk("C:\\", 10 * GB + 1, 0)));
    assert!(!looks_like_system_disk(&disk("C:\\", 10 * GB, 0)));
    assert!(looks_like_system_disk(&disk("/mnt/data", 11 * GB, 0)));
    assert!(!looks_like_system_disk(&disk("D:\\", 11 * GB, 0)));
    assert!(!looks_like_system_disk(&disk("", 11 * GB, 0)));
}

#[test]
fn parts_of_a_text() {
    assert!(contains_text(&chars("abc"), &chars("")));
    assert!(contains_text(&chars(""), &chars("")));
    assert!(contains_text(&chars("abc"), &chars("bc")));
    assert!(contains_text(&chars("abc"), &chars("abc")));
    assert!(!contains_text(&chars("abc"), &chars("abcd")));
    assert!(!contains_text(&chars("abc"), &chars("ca")));
    assert!(contains_text(&chars("aab"), &chars("ab")));
}
