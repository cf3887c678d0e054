use blazebee::agent::collectors::cpu::{parse_cpu_stats, CpuBuffer, CpuCollector, CpuStats};
use blazebee::agent::collectors::error::CollectorError;

#[test]
fn test_cpu_stats_creation() {
    let cpu_stats = CpuStats {
        cpu: "cpu0".to_string(),
        user: 1000,
        nice: 100,
        system: 500,
        idle: 10000,
        iowait: 200,
        irq: 50,
        softirq: 75,
    };

    assert_eq!(cpu_stats.cpu, "cpu0");
    assert_eq!(cpu_stats.user, 1000);
    assert_eq!(cpu_stats.system, 500);
    assert_eq!(cpu_stats.idle, 10000);
}

#[test]
fn test_cpu_stats_aggregate() {
    // Test for aggregate CPU stats (no core number)
    let cpu_stats = CpuStats {
        cpu: "cpu".to_string(),
        user: 8000,
        nice: 800,
        system: 4000,
        idle: 80000,
        iowait: 1600,
        irq: 400,
        softirq: 600,
    };

    assert_eq!(cpu_stats.cpu, "cpu");
    // Aggregate should have higher values than individual cores
    assert!(cpu_stats.user > 0);
}

#[test]
fn test_cpu_buffer_creation() {
    let buffer = CpuBuffer::new();
    assert_eq!(buffer.len(), 0);
    assert!(buffer.is_empty());
}

#[test]
fn test_cpu_buffer_with_capacity() {
    let buffer = CpuBuffer::with_capacity(8);
    assert_eq!(buffer.len(), 0);
    // Buffer has capacity but no entries yet
}

#[test]
fn test_cpu_buffer_push_single() {
    let mut buffer = CpuBuffer::new();
    let cpu_stats = CpuStats {
        cpu: "cpu0".to_string(),
        user: 1000,
        nice: 100,
        system: 500,
        idle: 10000,
        iowait: 200,
        irq: 50,
        softirq: 75,
    };

    buffer.push(cpu_stats);
    assert_eq!(buffer.len(), 1);
    assert!(!buffer.is_empty());
}

#[test]
fn test_cpu_buffer_multiple_cores() {
    let mut buffer = CpuBuffer::with_capacity(4);

    for i in 0..4 {
        let cpu_stats = CpuStats {
            cpu: (format!("cpu{}", i)),
            user: 1000 * (i as u64 + 1),
            nice: 100,
            system: 500,
            idle: 10000,
            iowait: 200,
            irq: 50,
            softirq: 75,
        };
        buffer.push(cpu_stats);
    }

    assert_eq!(buffer.len(), 4);
    let slice = buffer.as_slice();
    assert_eq!(slice.len(), 4);
}

#[test]
fn test_cpu_buffer_iterator() {
    let mut buffer = CpuBuffer::new();

    for i in 0..3 {
        let cpu_stats = CpuStats {
            cpu: (format!("cpu{}", i)),
            user: 1000,
            nice: 100,
            system: 500,
            idle: 10000,
            iowait: 200,
            irq: 50,
            softirq: 75,
        };
        buffer.push(cpu_stats);
    }

    let count = buffer.iter().count();
    assert_eq!(count, 3);
}

#[test]
fn test_cpu_collector_creation() {
    let _ = CpuCollector::new();
    let _ = CpuCollector::default();
    // Both instances should be created successfully
}

#[test]
fn test_cpu_buffer_as_slice() {
    let mut buffer = CpuBuffer::new();

    let cpu_stats = CpuStats {
        cpu: "cpu0".to_string(),
        user: 1000,
        nice: 100,
        system: 500,
        idle: 10000,
        iowait: 200,
        irq: 50,
        softirq: 75,
    };

    buffer.push(cpu_stats);
    let slice = buffer.as_slice();

    assert_eq!(slice.len(), 1);
    assert_eq!(slice[0].cpu, "cpu0");
}

#[test]
fn test_cpu_stats_total_time() {
    let cpu_stats = CpuStats {
        cpu: "cpu0".to_string(),
        user: 1000,
        nice: 100,
        system: 500,
        idle: 10000,
        iowait: 200,
        irq: 50,
        softirq: 75,
    };

    // Calculate total CPU time
    let total = cpu_stats.user
        + cpu_stats.nice
        + cpu_stats.system
        + cpu_stats.idle
        + cpu_stats.iowait
        + cpu_stats.irq
        + cpu_stats.softirq;

    assert_eq!(total, 11925);
}

#[test]
fn test_cpu_buffer_clone() {
    let mut buffer1 = CpuBuffer::new();

    let cpu_stats = CpuStats {
        cpu: "cpu0".to_string(),
        user: 1000,
        nice: 100,
        system: 500,
        idle: 10000,
        iowait: 200,
        irq: 50,
        softirq: 75,
    };

    buffer1.push(cpu_stats);
    let buffer2 = buffer1.clone();

    assert_eq!(buffer1.len(), buffer2.len());
    assert_eq!(buffer1.len(), 1);
}

#[test]
fn test_cpu_stats_zero_times() {
    let cpu_stats = CpuStats {
        cpu: "cpu0".to_string(),
        user: 0,
        nice: 0,
        system: 0,
        idle: 0,
        iowait: 0,
        irq: 0,
        softirq: 0,
    };

    assert_eq!(cpu_stats.user, 0);
    // All times can theoretically be zero (unusual case)
}

#[test]
fn test_cpu_stats_large_numbers() {
    // Test with large numbers that occur on systems running for a long time
    let cpu_stats = CpuStats {
        cpu: "cpu0".to_string(),
        user: 1_000_000_000,
        nice: 100_000_000,
        system: 500_000_000,
        idle: 10_000_000_000,
        iowait: 200_000_000,
        irq: 50_000_000,
        softirq: 75_000_000,
    };

    assert_eq!(cpu_stats.user, 1_000_000_000);
    assert_eq!(cpu_stats.idle, 10_000_000_000);
}

#[test]
fn cpu_parse_reads_cpu_lines_only() {
    let content = "cpu  10 1 5 100 2 0 3 0 0 0\n\
cpu0 6 1 3 50 1 0 2 0 0 0\n\
cpu1 4 0 2 50 1 0 1\n\
intr 12345 1 2 3\n\
ctxt 99\n\
cpu2 1 2 3\n";
    let buffer = parse_cpu_stats(content).unwrap();
    assert_eq!(buffer.len(), 3);
    let s = buffer.as_slice();
    assert_eq!(s[0].cpu, "cpu");
    assert_eq!(
        (s[0].user, s[0].nice, s[0].system, s[0].idle, s[0].iowait, s[0].irq, s[0].softirq),
        (10, 1, 5, 100, 2, 0, 3)
    );
    assert_eq!(s[1].cpu, "cpu0");
    assert_eq!(s[1].idle, 50);
    assert_eq!(s[2].cpu, "cpu1");
    assert_eq!(s[2].softirq, 1);
}

#[test]
fn cpu_parse_reports_the_bad_counter() {
    match parse_cpu_stats("cpu 1 2 3 4 x 6 7\n") {
        Err(CollectorError::ParseError { metric, location, reason }) => {
            assert_eq!(metric, "iowait");
            assert_eq!(location, "/proc/stat");
            assert_eq!(reason, "invalid value: x");
        }
        other => panic!("unexpected: {:?}", other),
    }
}

#[test]
fn cpu_parse_of_empty_content_is_empty() {
    assert!(parse_cpu_stats("").unwrap().is_empty());
}
