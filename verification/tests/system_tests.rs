use sgs::system::{
    cpu_fields_fit, cpu_usage, format_kib, parse_cpu_fields, parse_meminfo, parse_meminfo_value,
    snapshot_from_fields, CpuSnapshot, CpuStatError, MemInfoError,
};

/// Size formatting with floating point, which `format_kib` must agree with.
fn float_format_kib(kib: u64) -> String {
    let mib = kib as f64 / 1024.0;
    let gib = mib / 1024.0;
    if gib >= 1.0 {
        format!("{gib:.1}G")
    } else {
        format!("{mib:.0}M")
    }
}

#[test]
fn format_kib_examples() {
    assert_eq!(format_kib(0), "0M");
    assert_eq!(format_kib(1024), "1M");
    assert_eq!(format_kib(1048576), "1.0G");
    assert_eq!(format_kib(16 * 1048576), "16.0G");
    assert_eq!(format_kib(8_000_000), "7.6G");
}

#[test]
fn format_kib_matches_float_formatting() {
    let mut cases: Vec<u64> = vec![
        0, 1, 511, 512, 513, 1535, 1536, 2560, 3584, 1047552, 1048063, 1048064, 1048575, 1048576,
        1310720, 1363148, 1415577, 786432, 1101005, 3145728, 8_000_000, 16_384_000,
        (1 << 53) - 1, 1 << 53, (1 << 53) + 1, (1 << 53) + 3, (1 << 54) + 2, (1 << 54) + 6,
        u64::MAX, u64::MAX - 1, u64::MAX / 3, 1 << 63, (1 << 63) + (1 << 10) - 1,
    ];
    // ties of the tenth digit: kib * 10 / 2^20 = n + 1/2
    for odd in (1u64..400).step_by(2) {
        if (odd * (1 << 18)) % 5 == 0 {
            cases.push(odd * (1 << 18) / 5);
        }
    }
    // ties of whole MiB
    for m in 0u64..50 {
        cases.push(m * 1024 + 512);
    }
    let mut x: u64 = 0x9E37_79B9_7F4A_7C15;
    for _ in 0..20000 {
        x ^= x << 13;
        x ^= x >> 7;
        x ^= x << 17;
        cases.push(x >> (x % 64));
    }
    for kib in cases {
        assert_eq!(format_kib(kib), float_format_kib(kib), "kib = {kib}");
    }
}

const STAT: &str = "cpu  10 20 30 40 50 60 70 80 0 0\ncpu0 1 2 3 4 5 6 7 8 0 0\nintr 1\n";

#[test]
fn cpu_fields_and_snapshot() {
    let fields = parse_cpu_fields(STAT).unwrap();
    assert_eq!(fields, vec![10, 20, 30, 40, 50, 60, 70, 80, 0, 0]);
    assert!(cpu_fields_fit(&fields));
    let snap = snapshot_from_fields(&fields);
    assert_eq!(snap.idle, 90);
    assert_eq!(snap.total, 360);
}

#[test]
fn cpu_snapshot_without_steal() {
    let fields = parse_cpu_fields("cpu 1 2 3 4 5 6 7").unwrap();
    let snap = snapshot_from_fields(&fields);
    assert_eq!(snap.idle, 9);
    assert_eq!(snap.total, 28);
}

#[test]
fn cpu_stat_errors() {
    assert_eq!(parse_cpu_fields(""), Err(CpuStatError::MissingFirstLine));
    assert_eq!(parse_cpu_fields("   \nfoo"), Err(CpuStatError::MissingCpuLabel));
    assert_eq!(parse_cpu_fields("intr 1 2 3"), Err(CpuStatError::NotCpuLine));
    assert_eq!(parse_cpu_fields("cpu 1 2 x 4 5 6 7"), Err(CpuStatError::InvalidValue));
    assert_eq!(parse_cpu_fields("cpu 1 2 3 4 5 6"), Err(CpuStatError::NotEnoughFields));
    assert_eq!(CpuStatError::NotEnoughFields.message(), "not enough cpu fields in /proc/stat");
}

#[test]
fn cpu_fields_overflow_detected() {
    let fields = vec![u64::MAX, 1, 0, 0, 0, 0, 0];
    assert!(!cpu_fields_fit(&fields));
    let fields = vec![0, 0, 0, u64::MAX, 1, 0, 0];
    assert!(!cpu_fields_fit(&fields));
}

#[test]
fn cpu_usage_between_snapshots() {
    let prev = CpuSnapshot { idle: 100, total: 1000 };
    let next = CpuSnapshot { idle: 150, total: 1200 };
    let u = cpu_usage(prev, next);
    assert_eq!((u.used, u.total), (150, 200));
    // counters going backwards count as zero
    let u = cpu_usage(next, prev);
    assert_eq!((u.used, u.total), (0, 0));
    assert!(u.used <= u.total);
}

const MEMINFO: &str = "MemTotal:       16303340 kB\nMemFree:         1203856 kB\nMemAvailable:    9342952 kB\nBuffers:          498924 kB\n";

#[test]
fn meminfo_parsed() {
    let m = parse_meminfo(MEMINFO).unwrap();
    assert_eq!(m.total_kib, 16303340);
    assert_eq!(m.available_kib, 9342952);
    assert_eq!(m.used_kib, 16303340 - 9342952);
}

#[test]
fn meminfo_errors_and_saturation() {
    assert_eq!(parse_meminfo("MemAvailable: 5 kB").unwrap_err(), MemInfoError::MissingTotal);
    assert_eq!(parse_meminfo("MemTotal: 5 kB").unwrap_err(), MemInfoError::MissingAvailable);
    let m = parse_meminfo("MemTotal: 5 kB\nMemAvailable: 9 kB").unwrap();
    assert_eq!(m.used_kib, 0);
    // the last value of a key wins
    let m = parse_meminfo("MemTotal: 5 kB\nMemAvailable: 1 kB\nMemTotal: 7 kB").unwrap();
    assert_eq!(m.total_kib, 7);
    assert_eq!(MemInfoError::MissingAvailable.message(), "missing MemAvailable");
}

#[test]
fn meminfo_value_lines() {
    assert_eq!(parse_meminfo_value("MemTotal:  123 kB", "MemTotal:"), Some(123));
    assert_eq!(parse_meminfo_value("MemTotal:", "MemTotal:"), None);
    assert_eq!(parse_meminfo_value("MemTotal: x kB", "MemTotal:"), None);
    assert_eq!(parse_meminfo_value("SwapTotal: 1 kB", "MemTotal:"), None);
}
