use blazebee::agent::collectors::disk::{DiskBuffer, DiskStats, DiskStatsCollector};
use blazebee::agent::collectors::error::CollectorError;

#[test]
fn test_disk_stats_creation() {
    let stats = DiskStats {
        device: "sda".to_string(),
        reads_completed: 10000,
        reads_merged: 100,
        read_bytes: 5000000,
        read_time_ms: 50000,
        writes_completed: 8000,
        writes_merged: 80,
        written_bytes: 4000000,
        write_time_ms: 40000,
        io_in_progress: 5,
        io_time_ms: 90000,
    };

    assert_eq!(stats.device, "sda");
    assert_eq!(stats.reads_completed, 10000);
    assert_eq!(stats.writes_completed, 8000);
}

#[test]
fn test_disk_stats_zero_io() {
    // Test with a device that has no I/O activity
    let stats = DiskStats {
        device: "sdb".to_string(),
        reads_completed: 0,
        reads_merged: 0,
        read_bytes: 0,
        read_time_ms: 0,
        writes_completed: 0,
        writes_merged: 0,
        written_bytes: 0,
        write_time_ms: 0,
        io_in_progress: 0,
        io_time_ms: 0,
    };

    assert_eq!(stats.reads_completed, 0);
    assert_eq!(stats.io_in_progress, 0);
}

#[test]
fn test_disk_stats_nvme_device() {
    // Test with NVMe device naming
    let stats = DiskStats {
        device: "nvme0n1".to_string(),
        reads_completed: 50000,
        reads_merged: 200,
        read_bytes: 25000000,
        read_time_ms: 25000,
        writes_completed: 40000,
        writes_merged: 150,
        written_bytes: 20000000,
        write_time_ms: 20000,
        io_in_progress: 3,
        io_time_ms: 45000,
    };

    assert_eq!(stats.device, "nvme0n1");
    assert!(stats.reads_completed > stats.writes_completed);
}

#[test]
fn test_disk_buffer_creation() {
    let buffer = DiskBuffer::new();
    assert_eq!(buffer.len(), 0);
    assert!(buffer.is_empty());
}

#[test]
fn test_disk_buffer_with_capacity() {
    let buffer = DiskBuffer::with_capacity(16);
    assert_eq!(buffer.len(), 0);
}

#[test]
fn test_disk_buffer_push_single() {
    let mut buffer = DiskBuffer::new();
    let stats = DiskStats {
        device: "sda".to_string(),
        reads_completed: 10000,
        reads_merged: 100,
        read_bytes: 5000000,
        read_time_ms: 50000,
        writes_completed: 8000,
        writes_merged: 80,
        written_bytes: 4000000,
        write_time_ms: 40000,
        io_in_progress: 5,
        io_time_ms: 90000,
    };

    buffer.push(stats);
    assert_eq!(buffer.len(), 1);
}

#[test]
fn test_disk_buffer_multiple_devices() {
    let mut buffer = DiskBuffer::with_capacity(4);

    let devices = vec!["sda", "sdb", "sdc", "nvme0n1"];
    for device in devices {
        let stats = DiskStats {
            device: (device.to_string()),
            reads_completed: 10000,
            reads_merged: 100,
            read_bytes: 5000000,
            read_time_ms: 50000,
            writes_completed: 8000,
            writes_merged: 80,
            written_bytes: 4000000,
            write_time_ms: 40000,
            io_in_progress: 5,
            io_time_ms: 90000,
        };
        buffer.push(stats);
    }

    assert_eq!(buffer.len(), 4);
}

#[test]
fn test_disk_buffer_iterator() {
    let mut buffer = DiskBuffer::new();

    for i in 0..3 {
        let stats = DiskStats {
            device: (format!("sd{}", (b'a' + i as u8) as char)),
            reads_completed: 10000,
            reads_merged: 100,
            read_bytes: 5000000,
            read_time_ms: 50000,
            writes_completed: 8000,
            writes_merged: 80,
            written_bytes: 4000000,
            write_time_ms: 40000,
            io_in_progress: 5,
            io_time_ms: 90000,
        };
        buffer.push(stats);
    }

    let count = buffer.iter().count();
    assert_eq!(count, 3);
}

#[test]
fn test_disk_collector_creation() {
    let collector = DiskStatsCollector::new(None);
    assert!(collector.include_devices.is_none());
}

#[test]
fn test_disk_collector_with_devices() {
    let devices = vec!["sda".to_string(), "nvme0n1".to_string()];
    let collector = DiskStatsCollector::new(Some(devices.clone()));

    assert!(collector.include_devices.is_some());
    assert_eq!(collector.include_devices.unwrap().len(), 2);
}

#[test]
fn test_disk_collector_default() {
    let collector = DiskStatsCollector::default();
    assert!(collector.include_devices.is_none());
}

#[test]
fn test_disk_stats_total_io() {
    let stats = DiskStats {
        device: "sda".to_string(),
        reads_completed: 10000,
        reads_merged: 100,
        read_bytes: 5000000,
        read_time_ms: 50000,
        writes_completed: 8000,
        writes_merged: 80,
        written_bytes: 4000000,
        write_time_ms: 40000,
        io_in_progress: 5,
        io_time_ms: 90000,
    };

    let total_ops = stats.reads_completed + stats.writes_completed;
    assert_eq!(total_ops, 18000);

    let total_bytes = stats.read_bytes + stats.written_bytes;
    assert_eq!(total_bytes, 9000000);
}

#[test]
fn test_disk_stats_io_utilization() {
    let stats = DiskStats {
        device: "sda".to_string(),
        reads_completed: 10000,
        reads_merged: 100,
        read_bytes: 5000000,
        read_time_ms: 50000,
        writes_completed: 8000,
        writes_merged: 80,
        written_bytes: 4000000,
        write_time_ms: 40000,
        io_in_progress: 5,
        io_time_ms: 90000,
    };

    // Calculate utilization percentage
    let total_time = 100000; // Arbitrary total time for comparison
    let utilization = (stats.io_time_ms as f64 / total_time as f64) * 100.0;
    assert!(utilization > 0.0);
}

#[test]
fn test_disk_stats_merged_io_ratio() {
    let stats = DiskStats {
        device: "sda".to_string(),
        reads_completed: 10000,
        reads_merged: 100,
        read_bytes: 5000000,
        read_time_ms: 50000,
        writes_completed: 8000,
        writes_merged: 80,
        written_bytes: 4000000,
        write_time_ms: 40000,
        io_in_progress: 5,
        io_time_ms: 90000,
    };

    // Calculate read merge ratio
    if stats.reads_completed > 0 {
        let read_merge_ratio =
            (stats.reads_merged as f64 / stats.reads_completed as f64) * 100.0;
        assert!(read_merge_ratio >= 0.0 && read_merge_ratio <= 100.0);
    }
}

#[test]
fn test_disk_stats_large_numbers() {
    // Test with large numbers from heavily used disks
    let stats = DiskStats {
        device: "sda".to_string(),
        reads_completed: 1_000_000_000,
        reads_merged: 10_000_000,
        read_bytes: 500_000_000_000,
        read_time_ms: 5_000_000,
        writes_completed: 800_000_000,
        writes_merged: 8_000_000,
        written_bytes: 400_000_000_000,
        write_time_ms: 4_000_000,
        io_in_progress: 20,
        io_time_ms: 9_000_000,
    };

    assert_eq!(stats.reads_completed, 1_000_000_000);
    assert_eq!(stats.read_bytes, 500_000_000_000);
}

#[test]
fn test_disk_buffer_as_slice() {
    let mut buffer = DiskBuffer::new();

    let stats = DiskStats {
        device: "sda".to_string(),
        reads_completed: 10000,
        reads_merged: 100,
        read_bytes: 5000000,
        read_time_ms: 50000,
        writes_completed: 8000,
        writes_merged: 80,
        written_bytes: 4000000,
        write_time_ms: 40000,
        io_in_progress: 5,
        io_time_ms: 90000,
    };

    buffer.push(stats);
    let slice = buffer.as_slice();

    assert_eq!(slice.len(), 1);
    assert_eq!(slice[0].device, "sda");
}

#[test]
fn test_disk_buffer_clone() {
    let mut buffer1 = DiskBuffer::new();

    let stats = DiskStats {
        device: "sda".to_string(),
        reads_completed: 10000,
        reads_merged: 100,
        read_bytes: 5000000,
        read_time_ms: 50000,
        writes_completed: 8000,
        writes_merged: 80,
        written_bytes: 4000000,
        write_time_ms: 40000,
        io_in_progress: 5,
        io_time_ms: 90000,
    };

    buffer1.push(stats);
    let buffer2 = buffer1.clone();

    assert_eq!(buffer1.len(), buffer2.len());
}

const DISKSTATS: &str = "   8       0 sda 100 5 2048 30 200 10 4096 60 0 90 120 0 0 0 0\n\
   8       1 sda1 50 1 1024 10 20 2 512 6 0 16 16\n\
 259       0 nvme0n1 7 0 56 1 8 0 64 2 1 3 3 0 0 0 0\n\
   7       0 loop0 1 2 3\n";

#[test]
fn diskstats_all_devices() {
    let collector = DiskStatsCollector::new(None);
    let buffer = collector.parse_diskstats(DISKSTATS).unwrap();
    assert_eq!(buffer.len(), 3);
    let s = buffer.as_slice();
    assert_eq!(s[0].device, "sda");
    assert_eq!(
        (s[0].reads_completed, s[0].reads_merged, s[0].read_bytes, s[0].read_time_ms),
        (100, 5, 2048, 30)
    );
    assert_eq!(
        (s[0].writes_completed, s[0].writes_merged, s[0].written_bytes, s[0].write_time_ms),
        (200, 10, 4096, 60)
    );
    assert_eq!((s[0].io_in_progress, s[0].io_time_ms), (0, 90));
    assert_eq!(s[1].device, "sda1");
    assert_eq!(s[2].device, "nvme0n1");
    assert_eq!(s[2].io_in_progress, 1);
}

#[test]
fn diskstats_only_listed_devices() {
    let collector = DiskStatsCollector::new(Some(vec!["nvme0n1".to_string(), "sdz".to_string()]));
    let buffer = collector.parse_diskstats(DISKSTATS).unwrap();
    assert_eq!(buffer.len(), 1);
    assert_eq!(buffer.as_slice()[0].device, "nvme0n1");
}

#[test]
fn diskstats_bad_counter_names_device() {
    let collector = DiskStatsCollector::new(None);
    match collector.parse_diskstats("8 0 sdb 1 2 3 4 5 6 7 8 9 bad 11\n") {
        Err(CollectorError::ParseError { metric, location, reason }) => {
            assert_eq!(metric, "io_time_ms");
            assert_eq!(location, "/proc/diskstats device=sdb");
            assert_eq!(reason, "invalid value: bad");
        }
        other => panic!("unexpected: {:?}", other),
    }
}
