use blazebee::agent::collectors::error::CollectorError;
use blazebee::agent::collectors::ipvs::{parse_ipvs, IpvsCollector, IpvsStats};

#[test]
fn test_ipvs_stats_creation() {
    let stats = IpvsStats {
        connections: 1000,
        incoming_packets: 5000000,
        outgoing_packets: 4500000,
        incoming_bytes: 2500000000,
        outgoing_bytes: 2000000000,
    };

    assert_eq!(stats.connections, 1000);
    assert_eq!(stats.incoming_packets, 5000000);
    assert_eq!(stats.outgoing_packets, 4500000);
}

#[test]
fn test_ipvs_stats_zero_traffic() {
    // Test with no IPVS activity (freshly started or disabled)
    let stats = IpvsStats {
        connections: 0,
        incoming_packets: 0,
        outgoing_packets: 0,
        incoming_bytes: 0,
        outgoing_bytes: 0,
    };

    assert_eq!(stats.connections, 0);
    assert_eq!(stats.incoming_bytes, 0);
}

#[test]
fn test_ipvs_stats_high_traffic() {
    // Test with high load balancer activity
    let stats = IpvsStats {
        connections: 100000,
        incoming_packets: 1000000000,
        outgoing_packets: 900000000,
        incoming_bytes: 500000000000,
        outgoing_bytes: 400000000000,
    };

    assert!(stats.connections > 50000);
    assert!(stats.incoming_bytes > stats.outgoing_bytes);
}

#[test]
fn test_ipvs_stats_typical_load_balancer() {
    // Typical values for a moderately loaded load balancer
    let stats = IpvsStats {
        connections: 5000,
        incoming_packets: 50000000,
        outgoing_packets: 45000000,
        incoming_bytes: 25000000000,
        outgoing_bytes: 20000000000,
    };

    assert!(stats.connections > 1000);
    assert!(stats.connections < 50000);
}

#[test]
fn test_ipvs_collector_creation() {
    let _ = IpvsCollector::new();
    let _ = IpvsCollector::default();
    // Both instances should be created successfully
}

#[test]
fn test_ipvs_stats_clone() {
    let stats1 = IpvsStats {
        connections: 1000,
        incoming_packets: 5000000,
        outgoing_packets: 4500000,
        incoming_bytes: 2500000000,
        outgoing_bytes: 2000000000,
    };

    let stats2 = stats1.clone();
    assert_eq!(stats1.connections, stats2.connections);
    assert_eq!(stats1.incoming_bytes, stats2.incoming_bytes);
}

#[test]
fn test_ipvs_stats_debug_format() {
    let stats = IpvsStats {
        connections: 1000,
        incoming_packets: 5000000,
        outgoing_packets: 4500000,
        incoming_bytes: 2500000000,
        outgoing_bytes: 2000000000,
    };

    let debug_str = format!("{:?}", stats);
    assert!(debug_str.contains("IpvsStats"));
    assert!(debug_str.contains("1000"));
}

#[test]
fn test_ipvs_stats_total_packets() {
    let stats = IpvsStats {
        connections: 1000,
        incoming_packets: 5000000,
        outgoing_packets: 4500000,
        incoming_bytes: 2500000000,
        outgoing_bytes: 2000000000,
    };

    let total_packets = stats.incoming_packets + stats.outgoing_packets;
    assert_eq!(total_packets, 9500000);
}

#[test]
fn test_ipvs_stats_total_bytes() {
    let stats = IpvsStats {
        connections: 1000,
        incoming_packets: 5000000,
        outgoing_packets: 4500000,
        incoming_bytes: 2500000000,
        outgoing_bytes: 2000000000,
    };

    let total_bytes = stats.incoming_bytes + stats.outgoing_bytes;
    assert_eq!(total_bytes, 4500000000);
}

#[test]
fn test_ipvs_stats_average_packet_size() {
    let stats = IpvsStats {
        connections: 1000,
        incoming_packets: 5000000,
        outgoing_packets: 4500000,
        incoming_bytes: 5000000000,
        outgoing_bytes: 4000000000,
    };

    let total_packets = stats.incoming_packets + stats.outgoing_packets;
    let total_bytes = stats.incoming_bytes + stats.outgoing_bytes;

    if total_packets > 0 {
        let avg_packet_size = total_bytes as f64 / total_packets as f64;
        assert!(avg_packet_size > 100.0); // Average packet size in bytes
        assert!(avg_packet_size < 10000.0);
    }
}

#[test]
fn test_ipvs_stats_traffic_asymmetry() {
    // Test typical asymmetric traffic (more incoming than outgoing)
    let stats = IpvsStats {
        connections: 1000,
        incoming_packets: 6000000,
        outgoing_packets: 4000000,
        incoming_bytes: 3000000000,
        outgoing_bytes: 2000000000,
    };

    assert!(stats.incoming_packets > stats.outgoing_packets);
    assert!(stats.incoming_bytes > stats.outgoing_bytes);
}

#[test]
fn test_ipvs_stats_high_connections_low_traffic() {
    // Test scenario: many short connections with low data transfer
    let stats = IpvsStats {
        connections: 50000,
        incoming_packets: 100000,
        outgoing_packets: 100000,
        incoming_bytes: 10000000,
        outgoing_bytes: 10000000,
    };

    // Many connections but little traffic per connection
    let bytes_per_connection =
        (stats.incoming_bytes + stats.outgoing_bytes) / stats.connections;
    assert!(bytes_per_connection < 1000);
}

#[test]
fn test_ipvs_stats_low_connections_high_traffic() {
    // Test scenario: few large connections with high data transfer
    let stats = IpvsStats {
        connections: 100,
        incoming_packets: 10000000,
        outgoing_packets: 10000000,
        incoming_bytes: 5000000000,
        outgoing_bytes: 5000000000,
    };

    // Few connections but lots of data per connection
    let bytes_per_connection =
        (stats.incoming_bytes + stats.outgoing_bytes) / stats.connections;
    assert!(bytes_per_connection > 50000000);
}

#[test]
fn test_ipvs_stats_maximum_u64() {
    // Test with maximum u64 values (theoretical maximum)
    let stats = IpvsStats {
        connections: u64::MAX,
        incoming_packets: u64::MAX,
        outgoing_packets: u64::MAX,
        incoming_bytes: u64::MAX,
        outgoing_bytes: u64::MAX,
    };

    assert_eq!(stats.connections, u64::MAX);
}

#[test]
fn test_ipvs_stats_comparison() {
    let low_load = IpvsStats {
        connections: 100,
        incoming_packets: 1000000,
        outgoing_packets: 900000,
        incoming_bytes: 500000000,
        outgoing_bytes: 400000000,
    };

    let high_load = IpvsStats {
        connections: 10000,
        incoming_packets: 100000000,
        outgoing_packets: 90000000,
        incoming_bytes: 50000000000,
        outgoing_bytes: 40000000000,
    };

    assert!(low_load.connections < high_load.connections);
    assert!(low_load.incoming_bytes < high_load.incoming_bytes);
}

#[test]
fn test_ipvs_stats_stress_scenario() {
    // Scenario: IPVS under heavy DDoS or high load testing
    let before_stress = IpvsStats {
        connections: 1000,
        incoming_packets: 5000000,
        outgoing_packets: 4500000,
        incoming_bytes: 2500000000,
        outgoing_bytes: 2000000000,
    };

    let during_stress = IpvsStats {
        connections: 50000,
        incoming_packets: 500000000,
        outgoing_packets: 450000000,
        incoming_bytes: 250000000000,
        outgoing_bytes: 200000000000,
    };

    let connection_increase = during_stress.connections - before_stress.connections;
    assert_eq!(connection_increase, 49000);
}

#[test]
fn test_ipvs_stats_clone_independence() {
    let mut stats1 = IpvsStats {
        connections: 1000,
        incoming_packets: 5000000,
        outgoing_packets: 4500000,
        incoming_bytes: 2500000000,
        outgoing_bytes: 2000000000,
    };

    let stats2 = stats1.clone();

    stats1.connections = 2000;

    assert_eq!(stats1.connections, 2000);
    assert_eq!(stats2.connections, 1000);
}

#[test]
fn test_ipvs_stats_packet_loss_detection() {
    // Detect potential packet loss by comparing packet counts
    let stats = IpvsStats {
        connections: 1000,
        incoming_packets: 5000000,
        outgoing_packets: 4500000, // Some packets not responded to
        incoming_bytes: 2500000000,
        outgoing_bytes: 2000000000,
    };

    let packet_ratio = stats.outgoing_packets as f64 / stats.incoming_packets as f64;
    assert!(packet_ratio < 1.0); // More incoming than outgoing
    assert!(packet_ratio > 0.8); // But not too much loss
}

#[test]
fn test_ipvs_stats_throughput_calculation() {
    // Calculate estimated throughput
    let stats = IpvsStats {
        connections: 1000,
        incoming_packets: 5000000,
        outgoing_packets: 4500000,
        incoming_bytes: 2500000000,
        outgoing_bytes: 2000000000,
    };

    let total_bytes = stats.incoming_bytes + stats.outgoing_bytes;
    let total_packets = stats.incoming_packets + stats.outgoing_packets;

    // Bytes per packet metric
    if total_packets > 0 {
        let efficiency = total_bytes as f64 / total_packets as f64;
        assert!(efficiency > 0.0);
    }
}

#[test]
fn ipvs_reads_the_totals_line() {
    let content = "   Total Incoming Outgoing         Incoming         Outgoing\n\
   Conns  Packets  Packets            Bytes            Bytes\n\
     120     5000     4800          1000000           900000\n";
    let s = parse_ipvs(content).unwrap();
    assert_eq!(s.connections, 120);
    assert_eq!(s.incoming_packets, 5000);
    assert_eq!(s.outgoing_packets, 4800);
    assert_eq!(s.incoming_bytes, 1000000);
    assert_eq!(s.outgoing_bytes, 900000);
}

#[test]
fn ipvs_later_lines_replace_earlier_ones() {
    let content = "h1\nh2\n1 2 3 4 5\nshort\n6 7 8 9 10\n";
    let s = parse_ipvs(content).unwrap();
    assert_eq!((s.connections, s.outgoing_bytes), (6, 10));
}

#[test]
fn ipvs_headers_only_gives_zeros() {
    let s = parse_ipvs("h1\nh2\n").unwrap();
    assert_eq!(
        (s.connections, s.incoming_packets, s.outgoing_packets, s.incoming_bytes, s.outgoing_bytes),
        (0, 0, 0, 0, 0)
    );
}

#[test]
fn ipvs_bad_total_is_reported() {
    match parse_ipvs("h1\nh2\n1 2 3 4 5\n1 2 x 4 5\n") {
        Err(CollectorError::ParseError { metric, location, reason }) => {
            assert_eq!(metric, "outgoing_packets");
            assert_eq!(location, "/proc/net/ip_vs_stats");
            assert_eq!(reason, "invalid value: x");
        }
        other => panic!("unexpected: {:?}", other),
    }
}
