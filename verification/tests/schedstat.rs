use blazebee::agent::collectors::error::CollectorError;
use blazebee::agent::collectors::schedstat::{parse_schedstat, SchedstatBuffer, SchedstatCollector, SchedstatCpu};

#[test]
fn test_schedstat_buffer_operations() {
    let mut buffer = SchedstatBuffer::new();

    let stat1 = SchedstatCpu {
        cpu: "0".to_string(),
        running_ns: 1000,
        runnable_ns: 2000,
        run_delay_ns: 3000,
    };

    let stat2 = SchedstatCpu {
        cpu: "1".to_string(),
        running_ns: 1100,
        runnable_ns: 2100,
        run_delay_ns: 3100,
    };

    buffer.push(stat1);
    buffer.push(stat2);

    assert_eq!(buffer.len(), 2);
    assert!(!buffer.is_empty());

    let stats: Vec<_> = buffer.iter().collect();
    assert_eq!(stats.len(), 2);
    assert_eq!(stats[0].cpu, "0");
    assert_eq!(stats[1].cpu, "1");

    let slice = buffer.as_slice();
    assert_eq!(slice[0].running_ns, 1000);
    assert_eq!(slice[1].running_ns, 1100);
}

#[test]
fn test_schedstat_buffer_with_capacity() {
    let buffer = SchedstatBuffer::with_capacity(16);
    assert_eq!(buffer.len(), 0);
    assert!(buffer.is_empty());
}

#[test]
fn test_schedstat_cpu_clone() {
    let original = SchedstatCpu {
        cpu: ("5".to_string()),
        running_ns: 5555,
        runnable_ns: 6666,
        run_delay_ns: 7777,
    };

    let cloned = original.clone();

    assert_eq!(original.cpu, cloned.cpu);
    assert_eq!(original.running_ns, cloned.running_ns);
    assert_eq!(original.runnable_ns, cloned.runnable_ns);
    assert_eq!(original.run_delay_ns, cloned.run_delay_ns);
}

#[test]
fn test_schedstat_collector_creation() {
    let collector = SchedstatCollector::new();
    let default_collector = SchedstatCollector::default();

    // Both should create valid instances without panicking
    let _ = (collector, default_collector);
}

#[test]
fn schedstat_test_parse_empty_file() {
    let content = "";

    let result = parse_schedstat(content);
    assert!(result.is_ok());

    let buffer = result.unwrap();
    assert_eq!(buffer.len(), 0);
    assert!(buffer.is_empty());
}

#[test]
fn test_schedstat_cpu_debug_format() {
    let stat = SchedstatCpu {
        cpu: "3".to_string(),
        running_ns: 1111111,
        runnable_ns: 2222222,
        run_delay_ns: 3333333,
    };

    let debug_string = format!("{:?}", stat);
    assert!(debug_string.contains("running_ns"));
    assert!(debug_string.contains("runnable_ns"));
    assert!(debug_string.contains("1111111"));
}

#[test]
fn schedstat_reads_cpu_lines() {
    let content = "version 15\ntimestamp 4294\ncpu0 10 20 30 0 0 0 5 6 7\ndomain0 3 1 2\ncpu1 11 21 31 0 0 0 5 6 7\ncpu2 1 2 3\n";
    let buffer = parse_schedstat(content).unwrap();
    let s = buffer.as_slice();
    assert_eq!(s.len(), 2);
    assert_eq!(s[0].cpu, "0");
    assert_eq!((s[0].running_ns, s[0].runnable_ns, s[0].run_delay_ns), (10, 20, 30));
    assert_eq!(s[1].cpu, "1");
    assert_eq!(s[1].run_delay_ns, 31);
}

#[test]
fn schedstat_bad_time_names_cpu() {
    match parse_schedstat("cpu7 1 x 3 0 0 0 0 0 0\n") {
        Err(CollectorError::ParseError { metric, location, reason }) => {
            assert_eq!(metric, "runnable_ns");
            assert_eq!(location, "/proc/schedstat cpu=7");
            assert_eq!(reason, "invalid value: x");
        }
        other => panic!("unexpected: {:?}", other),
    }
}
