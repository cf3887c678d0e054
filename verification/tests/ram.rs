use blazebee::agent::collectors::error::CollectorError;
use blazebee::agent::collectors::ram::{parse_meminfo, MemoryCollector, MemoryStats};

#[test]
fn test_parse_valid_meminfo() {
    // Realistic output from /proc/meminfo on a system with 16GB RAM and 2GB swap
    let content = r#"MemTotal:       16384000 kB
MemFree:         8192000 kB
MemAvailable:   12288000 kB
Buffers:        1024000 kB
Cached:         4096000 kB
SwapTotal:      2097152 kB
SwapFree:       2097152 kB"#;

    let result = parse_meminfo(content);
    assert!(result.is_ok());

    let stats = result.unwrap();
    assert_eq!(stats.mem_total, 16384000);
    assert_eq!(stats.mem_free, 8192000);
    assert_eq!(stats.mem_available, 12288000);
    assert_eq!(stats.buffers, 1024000);
    assert_eq!(stats.cached, 4096000);
    assert_eq!(stats.swap_total, 2097152);
    assert_eq!(stats.swap_free, 2097152);
}

#[test]
fn test_parse_with_extra_fields() {
    // Real /proc/meminfo has many more fields; verify we ignore irrelevant ones
    let content = r#"MemTotal:       16384000 kB
MemFree:         8192000 kB
MemAvailable:   12288000 kB
Buffers:        1024000 kB
Cached:         4096000 kB
SReclaimable:    512000 kB
SUnreclaim:      256000 kB
SwapTotal:      2097152 kB
SwapFree:       2097152 kB
Dirty:           102400 kB
Writeback:            0 kB"#;

    let result = parse_meminfo(content);
    assert!(result.is_ok());

    let stats = result.unwrap();
    assert_eq!(stats.mem_total, 16384000);
    assert_eq!(stats.cached, 4096000);
    assert_eq!(stats.swap_free, 2097152);
}

#[test]
fn test_parse_missing_memtotal() {
    // MemTotal is required; without it the parser should fail
    let content = r#"MemFree:         8192000 kB
MemAvailable:   12288000 kB
SwapTotal:      2097152 kB"#;

    let result = parse_meminfo(content);
    assert!(result.is_err());

    if let Err(CollectorError::MissingField { field, .. }) = result {
        assert_eq!(field, "MemTotal");
    } else {
        panic!("Expected MissingField error for MemTotal");
    }
}

#[test]
fn test_parse_missing_optional_fields() {
    // Optional fields should default to 0 if missing
    let content = "MemTotal:       16384000 kB";

    let result = parse_meminfo(content);
    assert!(result.is_ok());

    let stats = result.unwrap();
    assert_eq!(stats.mem_total, 16384000);
    assert_eq!(stats.mem_free, 0);
    assert_eq!(stats.mem_available, 0);
    assert_eq!(stats.buffers, 0);
    assert_eq!(stats.cached, 0);
    assert_eq!(stats.swap_total, 0);
    assert_eq!(stats.swap_free, 0);
}

#[test]
fn ram_test_parse_zero_values() {
    // System with no swap and zero free memory (stress test condition)
    let content = r#"MemTotal:       16384000 kB
MemFree:              0 kB
MemAvailable:         0 kB
Buffers:              0 kB
Cached:               0 kB
SwapTotal:            0 kB
SwapFree:            0 kB"#;

    let result = parse_meminfo(content);
    assert!(result.is_ok());

    let stats = result.unwrap();
    assert_eq!(stats.mem_total, 16384000);
    assert_eq!(stats.mem_free, 0);
    assert_eq!(stats.swap_free, 0);
}

#[test]
fn ram_test_parse_high_values() {
    // System with very large memory (e.g., 1TB RAM)
    let content = r#"MemTotal:    1099511627776 kB
MemFree:     549755813888 kB
MemAvailable: 824633720832 kB
SwapTotal:      0 kB
SwapFree:       0 kB"#;

    let result = parse_meminfo(content);
    assert!(result.is_ok());

    let stats = result.unwrap();
    assert_eq!(stats.mem_total, 1099511627776);
    assert_eq!(stats.mem_free, 549755813888);
}

#[test]
fn test_parse_invalid_memtotal_value() {
    let content = r#"MemTotal:       not_a_number kB
MemFree:         8192000 kB
SwapTotal:      2097152 kB"#;

    let result = parse_meminfo(content);
    assert!(result.is_err());

    if let Err(CollectorError::MissingField { .. }) = result {
        // Non-numeric values fail to parse, so MemTotal is treated as missing
    } else {
        panic!("Expected MissingField error for invalid MemTotal");
    }
}

#[test]
fn test_parse_invalid_optional_field_value() {
    // Invalid values in optional fields should be silently ignored (treated as 0)
    let content = r#"MemTotal:       16384000 kB
MemFree:         not_a_number kB
MemAvailable:   12288000 kB
Cached:         broken_value kB
SwapTotal:      2097152 kB"#;

    let result = parse_meminfo(content);
    assert!(result.is_ok());

    let stats = result.unwrap();
    assert_eq!(stats.mem_total, 16384000);
    // Invalid values default to 0
    assert_eq!(stats.mem_free, 0);
    assert_eq!(stats.cached, 0);
}

#[test]
fn test_parse_malformed_lines() {
    // Lines without colons should be skipped
    let content = r#"MemTotal:       16384000 kB
This is not a valid line
Another invalid line with no colon
MemFree:         8192000 kB
Line: with: multiple: colons: ignored
SwapTotal:      2097152 kB"#;

    let result = parse_meminfo(content);
    assert!(result.is_ok());

    let stats = result.unwrap();
    assert_eq!(stats.mem_total, 16384000);
    assert_eq!(stats.mem_free, 8192000);
}

#[test]
fn ram_test_parse_extra_whitespace() {
    // Verify robustness with extra whitespace
    let content = r#"MemTotal:    16384000   kB
MemFree:       8192000    kB
MemAvailable:   12288000  kB
Buffers:        1024000   kB
Cached:         4096000   kB
SwapTotal:      2097152   kB
SwapFree:       2097152   kB"#;

    let result = parse_meminfo(content);
    assert!(result.is_ok());

    let stats = result.unwrap();
    assert_eq!(stats.mem_total, 16384000);
    assert_eq!(stats.buffers, 1024000);
}

#[test]
fn test_parse_unit_ignored() {
    // Different unit formats should be parsed correctly (only the number matters)
    let content = r#"MemTotal:       16384000 kB
MemFree:         8192000 MB
MemAvailable:   12288000 KB
SwapTotal:      2097152 kilobytes"#;

    let result = parse_meminfo(content);
    assert!(result.is_ok());

    let stats = result.unwrap();
    // Only the numeric part is parsed
    assert_eq!(stats.mem_total, 16384000);
    assert_eq!(stats.mem_free, 8192000);
}

#[test]
fn test_memory_stats_clone() {
    let original = MemoryStats {
        mem_total: 16384000,
        mem_free: 8192000,
        mem_available: 12288000,
        buffers: 1024000,
        cached: 4096000,
        swap_total: 2097152,
        swap_free: 2097152,
    };

    let cloned = original.clone();

    assert_eq!(original.mem_total, cloned.mem_total);
    assert_eq!(original.mem_free, cloned.mem_free);
    assert_eq!(original.cached, cloned.cached);
    assert_eq!(original.swap_total, cloned.swap_total);
}

#[test]
fn test_memory_collector_creation() {
    let collector = MemoryCollector::new();
    let default_collector = MemoryCollector::default();

    // Both should create valid instances without panicking
    let _ = (collector, default_collector);
}

#[test]
fn test_parse_realistic_modern_linux() {
    // Output from a modern Linux system with many fields
    let content = r#"MemTotal:       16384000 kB
MemFree:         2048000 kB
MemAvailable:    8192000 kB
Buffers:         512000 kB
Cached:          6144000 kB
SwapCached:      262144 kB
Active:          8388608 kB
Inactive:        4194304 kB
SwapTotal:       4194304 kB
SwapFree:        3932160 kB
Dirty:           102400 kB
Writeback:            0 kB
AnonPages:       6291456 kB
Mapped:          1048576 kB
Shmem:           524288 kB"#;

    let result = parse_meminfo(content);
    assert!(result.is_ok());

    let stats = result.unwrap();
    assert_eq!(stats.mem_total, 16384000);
    assert_eq!(stats.mem_free, 2048000);
    assert_eq!(stats.mem_available, 8192000);
    assert_eq!(stats.cached, 6144000);
    assert_eq!(stats.swap_total, 4194304);
    assert_eq!(stats.swap_free, 3932160);
}

#[test]
fn test_memory_stats_debug_format() {
    let stats = MemoryStats {
        mem_total: 16384000,
        mem_free: 8192000,
        mem_available: 12288000,
        buffers: 1024000,
        cached: 4096000,
        swap_total: 2097152,
        swap_free: 2097152,
    };

    let debug_string = format!("{:?}", stats);
    assert!(debug_string.contains("mem_total"));
    assert!(debug_string.contains("mem_free"));
    assert!(debug_string.contains("16384000"));
}

#[test]
fn test_parse_case_sensitivity() {
    // Keys should match exactly (case-sensitive)
    let content = r#"MemTotal:       16384000 kB
memfree:         8192000 kB
SWAPTOTAL:      2097152 kB
memAvailable:   12288000 kB"#;

    let result = parse_meminfo(content);
    // Should fail because "memfree", "SWAPTOTAL", "memAvailable" don't match expected keys
    // Only MemTotal is found, but that's enough; others default to 0
    assert!(result.is_ok());

    let stats = result.unwrap();
    assert_eq!(stats.mem_total, 16384000);
    // These won't match, so they default to 0
    assert_eq!(stats.mem_free, 0);
    assert_eq!(stats.swap_total, 0);
}

#[test]
fn meminfo_later_key_wins_and_bad_values_are_skipped() {
    let content = "MemTotal: 100 kB\nMemTotal: 200 kB\nMemFree: lots kB\nCached:\n";
    let s = parse_meminfo(content).unwrap();
    assert_eq!(s.mem_total, 200);
    assert_eq!(s.mem_free, 0);
    assert_eq!(s.cached, 0);
}

#[test]
fn meminfo_missing_total_names_location() {
    match parse_meminfo("MemFree: 5 kB\n") {
        Err(CollectorError::MissingField { field, location }) => {
            assert_eq!(field, "MemTotal");
            assert_eq!(location, "/proc/meminfo");
        }
        other => panic!("unexpected: {:?}", other),
    }
}

#[test]
fn meminfo_lines_with_different_keys_commute() {
    let a = parse_meminfo("MemTotal: 100 kB\nMemFree: 40 kB\nSwapFree: 7 kB\n").unwrap();
    let b = parse_meminfo("SwapFree: 7 kB\nMemFree: 40 kB\nMemTotal: 100 kB\n").unwrap();
    assert_eq!((a.mem_total, a.mem_free, a.swap_free), (b.mem_total, b.mem_free, b.swap_free));
    assert_eq!((a.mem_total, a.mem_free, a.swap_free), (100, 40, 7));
}
