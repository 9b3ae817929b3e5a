use icy::utils::{
    check_path_accessible, check_root_privileges, detect_filesystem_type, findmnt_command,
    findmnt_says_btrfs, format_bytes, log_line, lvdisplay_command, UtilError,
};
use icy::config::FilesystemType;

#[test]
fn test_format_bytes() {
    assert_eq!(format_bytes(0), "0 B");
    assert_eq!(format_bytes(1024), "1.00 KB");
    assert_eq!(format_bytes(1048576), "1.00 MB");
    assert_eq!(format_bytes(1073741824), "1.00 GB");
}

/// The size text computed in floating point with std's formatting.
fn reference_format(bytes: u64) -> String {
    const UNITS: &[&str] = &["B", "KB", "MB", "GB", "TB"];
    if bytes == 0 {
        return "0 B".to_string();
    }
    let mut size = bytes as f64;
    let mut unit_idx = 0;
    while size >= 1024.0 && unit_idx < UNITS.len() - 1 {
        size /= 1024.0;
        unit_idx += 1;
    }
    format!("{:.2} {}", size, UNITS[unit_idx])
}

#[test]
fn format_bytes_matches_floating_point() {
    let mut values: Vec<u64> = vec![
        1, 2, 9, 10, 99, 100, 512, 1000, 1023, 1025, 1029, 1152, 1536, 1048575, 1048577,
        1099511627775, 1099511627776, 1125899906842624, 9007199254740991, 9007199254740992,
        9007199254740993, 9007199254740995, 18014398509481983, u64::MAX, u64::MAX - 1,
        u64::MAX / 3, 123456789012345678,
    ];
    let mut x: u64 = 0x9E3779B97F4A7C15;
    for _ in 0..20000 {
        x ^= x << 13;
        x ^= x >> 7;
        x ^= x << 17;
        values.push(x >> (x % 64));
        values.push(x % 5000);
    }
    for k in 0..64u32 {
        let p = 1u64 << k;
        values.push(p);
        values.push(p.wrapping_sub(1));
        values.push(p.wrapping_add(1));
    }
    for v in values {
        assert_eq!(format_bytes(v), reference_format(v), "bytes = {}", v);
    }
}

#[test]
fn format_bytes_rounds_ties_to_even() {
    // 1152 / 1024 = 1.125 exactly, 1160 / 1024 = 1.1328125
    assert_eq!(format_bytes(1152), "1.12 KB");
    assert_eq!(format_bytes(1160), "1.13 KB");
    assert_eq!(format_bytes(1023), "1023.00 B");
    assert_eq!(format_bytes(1048575), "1024.00 KB");
    assert_eq!(format_bytes(u64::MAX), "16777216.00 TB");
}

#[test]
fn root_check_agrees_with_effective_uid() {
    let is_root = nix::unistd::Uid::effective().is_root();
    match check_root_privileges() {
        Ok(()) => assert!(is_root),
        Err(UtilError::RootRequired) => assert!(!is_root),
        Err(e) => panic!("unexpected error {:?}", e),
    }
}

#[test]
fn findmnt_output_is_read_case_insensitively() {
    assert!(findmnt_says_btrfs(true, "btrfs\n"));
    assert!(findmnt_says_btrfs(true, "  BTRFS  \n"));
    assert!(findmnt_says_btrfs(true, "fuse.Btrfs"));
    assert!(!findmnt_says_btrfs(false, "btrfs\n"));
    assert!(!findmnt_says_btrfs(true, "ext4\n"));
    assert!(!findmnt_says_btrfs(true, "btr fs"));
    assert!(!findmnt_says_btrfs(true, ""));
}

#[test]
fn detection_prefers_btrfs_then_lvm() {
    assert!(matches!(detect_filesystem_type("/", true, true), Ok(FilesystemType::Btrfs)));
    assert!(matches!(detect_filesystem_type("/", false, true), Ok(FilesystemType::Lvm)));
    match detect_filesystem_type("/data", false, false) {
        Err(e) => {
            assert!(matches!(e, UtilError::UndetectedFilesystem(ref p) if p == "/data"));
            assert_eq!(e.message(), "Unable to detect filesystem type for /data");
        }
        Ok(t) => panic!("detected {:?}", t),
    }
}

#[test]
fn probe_commands() {
    let c = findmnt_command("/home");
    assert_eq!(c.program, "findmnt");
    assert_eq!(c.args, vec!["-n", "-o", "FSTYPE", "/home"]);
    let c = lvdisplay_command("/dev/vg/root");
    assert_eq!(c.program, "lvdisplay");
    assert_eq!(c.args, vec!["/dev/vg/root"]);
}

#[test]
fn path_checks_report_each_failure() {
    assert!(check_path_accessible("/x", true, true).is_ok());
    let e = check_path_accessible("/x", false, true).unwrap_err();
    assert_eq!(e.message(), "Path '/x' does not exist");
    let e = check_path_accessible("/x", true, false).unwrap_err();
    assert_eq!(e.message(), "Cannot access path '/x'");
    assert_eq!(UtilError::RootRequired.message(), "Root privileges required");
}

#[test]
fn log_lines() {
    assert_eq!(log_line("2024-01-02 03:04:05", "Created snapshot #1 for root"),
        "[2024-01-02 03:04:05] Created snapshot #1 for root\n");
}

#[test]
fn root_verdict_for_each_answer() {
    assert!(icy::utils::root_verdict(true).is_ok());
    let e = icy::utils::root_verdict(false).unwrap_err();
    assert!(matches!(e, UtilError::RootRequired));
    assert_eq!(e.message(), "Root privileges required");
}

#[test]
fn format_bytes_grows_with_size() {
    let unit = |s: &str| ["B", "KB", "MB", "GB", "TB"].iter()
        .position(|u| s.ends_with(&format!(" {}", u))).unwrap();
    let num = |s: &str| s.split(' ').next().unwrap().parse::<f64>().unwrap();
    let samples: Vec<u64> = vec![0, 1, 1023, 1024, 1500, 1048575, 1048576, 5 << 30, 1 << 40, u64::MAX];
    for w in samples.windows(2) {
        let (a, b) = (format_bytes(w[0]), format_bytes(w[1]));
        assert!(unit(&a) <= unit(&b), "{} {}", a, b);
        if unit(&a) == unit(&b) {
            assert!(num(&a) <= num(&b), "{} {}", a, b);
        }
    }
}
