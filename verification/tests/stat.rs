use blazebee::agent::collectors::error::CollectorError;
use blazebee::agent::collectors::stat::{parse_global_stats, StatCollector, StatGlobalStats};

#[test]
fn test_parse_valid_stat() {
    // Realistic output from /proc/stat
    let content = r#"cpu  2255 34 2290 22625563 1290 127 456 0 0 0
cpu0 1132 16 1449 11311718 896 110 340 0 0 0
cpu1 1123 18 841 11313845 394 17 116 0 0 0
intr 114930548 74852 2 0 0 0 0 0 0 0 0 0 0 4419 0 0 0 0 0 0 0 0 0 0 0 0 0 0 0 0 0 0
ctxt 1990473
btime 1584822450
processes 1234567
procs_running 2
procs_blocked 0"#;

    let result = parse_global_stats(content);
    assert!(result.is_ok());

    let stats = result.unwrap();
    assert_eq!(stats.boot_time, 1584822450);
    assert_eq!(stats.total_forks, 1234567);
    assert_eq!(stats.total_interrupts, 114930548);
}

#[test]
fn test_parse_boot_time_only() {
    let content = r#"btime 1234567890
processes 1000
intr 5000 100 200"#;

    let result = parse_global_stats(content);
    assert!(result.is_ok());

    let stats = result.unwrap();
    assert_eq!(stats.boot_time, 1234567890);
    assert_eq!(stats.total_forks, 1000);
    assert_eq!(stats.total_interrupts, 5000);
}

#[test]
fn stat_test_parse_large_values() {
    // System with very high counters
    let content = r#"btime 1609459200
processes 18446744073709551615
intr 18446744073709551615 extra fields"#;

    let result = parse_global_stats(content);
    assert!(result.is_ok());

    let stats = result.unwrap();
    assert_eq!(stats.boot_time, 1609459200);
    assert_eq!(stats.total_forks, u64::MAX);
    assert_eq!(stats.total_interrupts, u64::MAX);
}

#[test]
fn stat_test_parse_zero_values() {
    let content = r#"btime 0
processes 0
intr 0"#;

    let result = parse_global_stats(content);
    assert!(result.is_ok());

    let stats = result.unwrap();
    assert_eq!(stats.boot_time, 0);
    assert_eq!(stats.total_forks, 0);
    assert_eq!(stats.total_interrupts, 0);
}

#[test]
fn test_parse_negative_boot_time() {
    // Some systems with unusual clock configurations may have negative boot times
    let content = r#"btime -1000
processes 100
intr 1000"#;

    let result = parse_global_stats(content);
    assert!(result.is_ok());

    let stats = result.unwrap();
    assert_eq!(stats.boot_time, -1000);
}

#[test]
fn test_parse_invalid_boot_time_value() {
    let content = r#"btime not_a_number
processes 1000
intr 5000"#;

    let result = parse_global_stats(content);
    assert!(result.is_err());

    if let Err(CollectorError::ParseError { metric, .. }) = result {
        assert_eq!(metric, "boot_time");
    } else {
        panic!("Expected ParseError for invalid boot_time");
    }
}

#[test]
fn test_parse_invalid_processes_value() {
    let content = r#"btime 1234567890
processes invalid_number
intr 5000"#;

    let result = parse_global_stats(content);
    assert!(result.is_err());

    if let Err(CollectorError::ParseError { metric, .. }) = result {
        assert_eq!(metric, "total_forks");
    } else {
        panic!("Expected ParseError for invalid processes");
    }
}

#[test]
fn test_parse_invalid_intr_value() {
    let content = r#"btime 1234567890
processes 1000
intr bad_value 100 200"#;

    let result = parse_global_stats(content);
    assert!(result.is_err());

    if let Err(CollectorError::ParseError { metric, .. }) = result {
        assert_eq!(metric, "total_interrupts");
    } else {
        panic!("Expected ParseError for invalid intr");
    }
}

#[test]
fn test_parse_intr_with_per_irq_counts() {
    // intr line has total count followed by per-IRQ breakdowns
    let content = r#"btime 1234567890
processes 1000
intr 1000000 100000 200000 300000 400000 0 0 0"#;

    let result = parse_global_stats(content);
    assert!(result.is_ok());

    let stats = result.unwrap();
    // Only the first value (total) is extracted
    assert_eq!(stats.total_interrupts, 1000000);
}

#[test]
fn stat_test_parse_order_independent() {
    // Verify parsing order doesn't matter
    let content1 = r#"btime 1111
processes 2222
intr 3333"#;

    let content2 = r#"processes 2222
intr 3333
btime 1111"#;

    let result1 = parse_global_stats(content1);
    let result2 = parse_global_stats(content2);

    assert!(result1.is_ok());
    assert!(result2.is_ok());

    let stats1 = result1.unwrap();
    let stats2 = result2.unwrap();

    assert_eq!(stats1.boot_time, stats2.boot_time);
    assert_eq!(stats1.total_forks, stats2.total_forks);
    assert_eq!(stats1.total_interrupts, stats2.total_interrupts);
}

#[test]
fn stat_test_parse_with_extra_whitespace() {
    let content = r#"btime    1234567890
processes   1000
intr    5000"#;

    let result = parse_global_stats(content);
    assert!(result.is_ok());

    let stats = result.unwrap();
    assert_eq!(stats.boot_time, 1234567890);
    assert_eq!(stats.total_forks, 1000);
    assert_eq!(stats.total_interrupts, 5000);
}

#[test]
fn test_parse_with_extra_cpu_lines() {
    // Real /proc/stat has many CPU lines; verify we ignore them
    let content = r#"cpu  2255 34 2290 22625563 1290 127 456 0 0 0
cpu0 1132 16 1449 11311718 896 110 340 0 0 0
cpu1 1123 18 841 11313845 394 17 116 0 0 0
intr 114930548 74852 2 0 0
ctxt 1990473
btime 1584822450
processes 1234567
procs_running 2
procs_blocked 0"#;

    let result = parse_global_stats(content);
    assert!(result.is_ok());

    let stats = result.unwrap();
    assert_eq!(stats.boot_time, 1584822450);
    assert_eq!(stats.total_forks, 1234567);
    assert_eq!(stats.total_interrupts, 114930548);
}

#[test]
fn test_stat_global_stats_clone() {
    let original = StatGlobalStats {
        boot_time: 1234567890,
        total_forks: 50000,
        total_interrupts: 2000000,
    };

    let cloned = original.clone();

    assert_eq!(original.boot_time, cloned.boot_time);
    assert_eq!(original.total_forks, cloned.total_forks);
    assert_eq!(original.total_interrupts, cloned.total_interrupts);
}

#[test]
fn test_stat_collector_creation() {
    let collector = StatCollector::new();
    let default_collector = StatCollector::default();

    let _ = (collector, default_collector);
}

#[test]
fn test_parse_uptime_calculation() {
    // Scenario: Calculate system uptime from boot_time
    let current_timestamp = 1609459200i64; // 2021-01-01 00:00:00 UTC
    let boot_timestamp = 1609372800i64; // 2020-12-31 00:00:00 UTC

    let content = format!(
        r#"btime {}
processes 1000
intr 5000"#,
        boot_timestamp
    );

    let result = parse_global_stats(&content);
    assert!(result.is_ok());

    let stats = result.unwrap();
    let uptime = current_timestamp - stats.boot_time;

    assert_eq!(uptime, 86400); // 1 day in seconds
}

#[test]
fn test_parse_process_creation_rate() {
    // Scenario: Track process creation rate by comparing counts over time
    let content1 = r#"btime 1000
processes 100000
intr 5000"#;

    let content2 = r#"btime 1000
processes 101000
intr 5100"#;

    let result1 = parse_global_stats(content1);
    let result2 = parse_global_stats(content2);

    assert!(result1.is_ok());
    assert!(result2.is_ok());

    let stats1 = result1.unwrap();
    let stats2 = result2.unwrap();

    let fork_rate = stats2.total_forks - stats1.total_forks;
    assert_eq!(fork_rate, 1000);
}

#[test]
fn test_parse_interrupt_rate() {
    // Scenario: Track interrupt handling rate
    let content1 = r#"btime 1000
processes 1000
intr 1000000"#;

    let content2 = r#"btime 1000
processes 1001
intr 1050000"#;

    let result1 = parse_global_stats(content1);
    let result2 = parse_global_stats(content2);

    assert!(result1.is_ok());
    assert!(result2.is_ok());

    let stats1 = result1.unwrap();
    let stats2 = result2.unwrap();

    let interrupt_increase = stats2.total_interrupts - stats1.total_interrupts;
    assert_eq!(interrupt_increase, 50000);
}

#[test]
fn test_stat_global_stats_debug_format() {
    let stats = StatGlobalStats {
        boot_time: 1234567890,
        total_forks: 50000,
        total_interrupts: 2000000,
    };

    let debug_string = format!("{:?}", stats);
    assert!(debug_string.contains("boot_time"));
    assert!(debug_string.contains("total_forks"));
    assert!(debug_string.contains("total_interrupts"));
}

#[test]
fn test_parse_i64_boundaries() {
    // Test near i64 boundaries for boot_time
    let max_i64_str = i64::MAX.to_string();
    let min_i64_str = i64::MIN.to_string();

    let content_max = format!(
        r#"btime {}
processes 1000
intr 5000"#,
        max_i64_str
    );

    let result_max = parse_global_stats(&content_max);
    assert!(result_max.is_ok());
    assert_eq!(result_max.unwrap().boot_time, i64::MAX);

    let content_min = format!(
        r#"btime {}
processes 1000
intr 5000"#,
        min_i64_str
    );

    let result_min = parse_global_stats(&content_min);
    assert!(result_min.is_ok());
    assert_eq!(result_min.unwrap().boot_time, i64::MIN);
}

#[test]
fn test_parse_line_prefix_matching() {
    // Ensure exact prefix matching (e.g., "btime" not "btime_something")
    let content = r#"btime 1234567890
btime_custom 999999
processes 1000
proc_extra 100
intr 5000
interrupt_extra 5555"#;

    let result = parse_global_stats(content);
    assert!(result.is_ok());

    let stats = result.unwrap();
    assert_eq!(stats.boot_time, 1234567890);
    assert_eq!(stats.total_forks, 1000);
    assert_eq!(stats.total_interrupts, 5000);
}

#[test]
fn global_stats_error_carries_location_and_reason() {
    match parse_global_stats("btime\n") {
        Err(CollectorError::ParseError { metric, location, reason }) => {
            assert_eq!(metric, "boot_time");
            assert_eq!(location, "/proc/stat");
            assert_eq!(reason, "invalid value");
        }
        other => panic!("unexpected: {:?}", other),
    }
    let s = parse_global_stats("btime -5\nintr 3 1 2\nprocesses 9\n").unwrap();
    assert_eq!((s.boot_time, s.total_interrupts, s.total_forks), (-5, 3, 9));
}

#[test]
fn global_stats_require_all_three_lines() {
    for (content, metric) in [
        ("processes 1000\nintr 5000\n", "boot_time"),
        ("btime 1\nintr 5000\n", "total_forks"),
        ("btime 1\nprocesses 1000\n", "total_interrupts"),
        ("", "boot_time"),
    ] {
        match parse_global_stats(content) {
            Err(CollectorError::ParseError { metric: m, location, reason }) => {
                assert_eq!(m, metric);
                assert_eq!(location, "/proc/stat");
                assert_eq!(reason, "missing");
            }
            other => panic!("unexpected for {:?}: {:?}", content, other),
        }
    }
}
