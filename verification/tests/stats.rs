use qualirs::stats::{
    filetime_nanos, format_duration, format_memory, render, rusage_snapshot, ResourceStats, ResourceTracker, Snapshot,
};

#[test]
fn footer_formats_units_and_missing_counters() {
    let stats = ResourceStats {
        elapsed_nanos: 94_559_000_000,
        cpu_nanos: Some(103_828_000_000),
        peak_memory_bytes: Some(275_513_344),
    };
    let text = render(&stats);
    assert!(text.contains("Elapsed time: 1 min 34.559 s"));
    assert!(text.contains("CPU time (all process threads): 1 min 43.828 s"));
    assert!(text.contains("Peak memory (process lifetime): 262.75 MiB"));
    for (nanos, expected) in [
        (0u128, "0 s"),
        (42, "42 ns"),
        (1250, "1.25 µs"),
        (125_500_000, "125.5 ms"),
        (1_250_000_000, "1.25 s"),
        (59_999_900_000, "1 min"),
        (3_661_000_000_000, "1 h 1 min 1 s"),
        (86_400_000_000_000, "1 d"),
    ] {
        assert_eq!(format_duration(nanos), expected);
    }
    for (bytes, expected) in [
        (0u64, "0 B"),
        (1024, "1.00 KiB"),
        (1 << 30, "1.00 GiB"),
        (1 << 40, "1.00 TiB"),
    ] {
        assert_eq!(format_memory(bytes), expected);
    }
    let missing = render(&ResourceStats { elapsed_nanos: 0, cpu_nanos: None, peak_memory_bytes: None });
    assert_eq!(missing.matches("unavailable").count(), 2);
}

#[test]
fn rusage_counters_convert_kibibytes_and_reject_bad_fields() {
    let s = rusage_snapshot((1, 500_000), (0, 250_000), 2048, 1024);
    assert_eq!(s.cpu_nanos, Some(1_750_000_000));
    assert_eq!(s.peak_memory_bytes, Some(2_097_152));
    let bad = rusage_snapshot((1, 1_000_000), (0, 0), -1, 1024);
    assert_eq!(bad.cpu_nanos, None);
    assert_eq!(bad.peak_memory_bytes, None);
}

#[test]
fn tracker_reports_no_cpu_when_counters_go_backwards() {
    let start = Snapshot { cpu_nanos: Some(10), peak_memory_bytes: Some(1) };
    let end = Snapshot { cpu_nanos: Some(5), peak_memory_bytes: Some(7) };
    let stats = ResourceTracker::start(start).finish(end);
    assert_eq!(stats.cpu_nanos, None);
    assert_eq!(stats.peak_memory_bytes, Some(7));
}

#[test]
fn memory_below_a_kibibyte_is_in_bytes() {
    assert_eq!(format_memory(1023), "1023 B");
    assert_eq!(format_memory(1536), "1.50 KiB");
}

#[test]
fn filetime_conversion_preserves_units_and_high_bits() {
    assert_eq!(
        std::time::Duration::from_nanos(filetime_nanos(15_000_001, 0) as u64),
        std::time::Duration::new(1, 500_000_100)
    );
    assert_eq!(
        std::time::Duration::from_nanos(filetime_nanos(0, 1) as u64),
        std::time::Duration::from_nanos((1_u64 << 32) * 100)
    );
}

#[test]
fn milliseconds_print_the_double_quotient() {
    // 1.0635 has no exact double; the nearest one lies just below it.
    assert_eq!(format_duration(1_063_500), "1.063 ms");
    // 7.8125 is exact, and the tie rounds to the even digit.
    assert_eq!(format_duration(7_812_500), "7.812 ms");
    assert_eq!(format_duration(125_500_000), "125.5 ms");
}
