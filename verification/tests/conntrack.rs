use blazebee::agent::collectors::conntrack::{conntrack_stats, ConntrackCollector, ConntrackStats};
use blazebee::agent::collectors::error::CollectorError;

#[test]
fn test_conntrack_stats_creation() {
    let stats = ConntrackStats {
        entries: 1234,
        max: 262144,
    };

    assert_eq!(stats.entries, 1234);
    assert_eq!(stats.max, 262144);
}

#[test]
fn test_conntrack_stats_zero_entries() {
    let stats = ConntrackStats {
        entries: 0,
        max: 262144,
    };

    assert_eq!(stats.entries, 0);
    assert!(stats.entries <= stats.max);
}

#[test]
fn test_conntrack_stats_full_table() {
    // Test when conntrack table is full or nearly full
    let stats = ConntrackStats {
        entries: 262144,
        max: 262144,
    };

    assert_eq!(stats.entries, stats.max);
}

#[test]
fn test_conntrack_stats_high_utilization() {
    // Test with high but not full utilization
    let stats = ConntrackStats {
        entries: 200000,
        max: 262144,
    };

    let utilization = (stats.entries as f64 / stats.max as f64) * 100.0;
    assert!(utilization > 75.0);
    assert!(utilization < 100.0);
}

#[test]
fn test_conntrack_stats_low_utilization() {
    // Test with low utilization
    let stats = ConntrackStats {
        entries: 50000,
        max: 262144,
    };

    let utilization = (stats.entries as f64 / stats.max as f64) * 100.0;
    assert!(utilization < 25.0);
}

#[test]
fn test_conntrack_collector_creation() {
    let _ = ConntrackCollector::new();
    let _ = ConntrackCollector::default();
    // Both instances should be created successfully
}

#[test]
fn test_conntrack_stats_utilization_calculation() {
    // Test helper function to calculate utilization percentage
    let stats = ConntrackStats {
        entries: 65536,
        max: 262144,
    };

    let utilization = (stats.entries as f64 / stats.max as f64) * 100.0;
    assert!((utilization - 25.0).abs() < 0.01); // Should be exactly 25%
}

#[test]
fn test_conntrack_stats_typical_server() {
    // Typical values for a moderately loaded server
    let stats = ConntrackStats {
        entries: 15000,
        max: 262144,
    };

    assert!(stats.entries > 0);
    assert!(stats.entries < stats.max);

    let utilization = (stats.entries as f64 / stats.max as f64) * 100.0;
    assert!(utilization < 10.0); // Less than 10% utilization
}

#[test]
fn test_conntrack_stats_large_numbers() {
    // Test with large numbers that might occur on heavily loaded systems
    let stats = ConntrackStats {
        entries: 1000000,
        max: 2097152, // 2M connections
    };

    assert_eq!(stats.entries, 1000000);
    assert_eq!(stats.max, 2097152);
    assert!(stats.entries < stats.max);
}

#[test]
fn test_conntrack_stats_clone() {
    let stats1 = ConntrackStats {
        entries: 5000,
        max: 262144,
    };

    let stats2 = stats1.clone();
    assert_eq!(stats1.entries, stats2.entries);
    assert_eq!(stats1.max, stats2.max);
}

#[test]
fn conntrack_counts_table_lines() {
    let table = "ipv4 2 tcp 6 431999 ESTABLISHED\nipv4 2 udp 17 29\nipv4 2 tcp 6 10 TIME_WAIT\n";
    let stats = conntrack_stats(Some(table), Some("262144\n")).unwrap();
    assert_eq!(stats.entries, 3);
    assert_eq!(stats.max, 262144);
}

#[test]
fn conntrack_unreadable_table_counts_zero() {
    let stats = conntrack_stats(None, Some("  65536  ")).unwrap();
    assert_eq!(stats.entries, 0);
    assert_eq!(stats.max, 65536);
}

#[test]
fn conntrack_limit_must_be_readable() {
    match conntrack_stats(Some("a\n"), None) {
        Err(CollectorError::FileRead { path, .. }) => {
            assert_eq!(path, "/proc/sys/net/netfilter/nf_conntrack_max")
        }
        other => panic!("unexpected: {:?}", other),
    }
    match conntrack_stats(Some("a\n"), Some("lots")) {
        Err(CollectorError::FileRead { path, source }) => {
            assert_eq!(path, "/proc/sys/net/netfilter/nf_conntrack_max");
            assert_eq!(source.kind(), std::io::ErrorKind::NotFound);
        }
        other => panic!("unexpected: {:?}", other),
    }
}

#[test]
fn test_conntrack_stats_debug_format() {
    let stats = ConntrackStats {
        entries: 1000,
        max: 100000,
    };

    let debug_str = format!("{:?}", stats);
    assert!(debug_str.contains("ConntrackStats"));
    assert!(debug_str.contains("1000"));
    assert!(debug_str.contains("100000"));
}
