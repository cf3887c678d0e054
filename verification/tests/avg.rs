use blazebee::agent::collectors::avg::{loadavg_words, parse_process_counts, LoadAverageCollector};
use blazebee::agent::collectors::error::CollectorError;

#[test]
fn test_load_average_collector_creation() {
    let _ = LoadAverageCollector::new();
    let _ = LoadAverageCollector::default();
    // Both instances should be created successfully
}

#[test]
fn loadavg_words_splits_the_file() {
    let w = loadavg_words("0.52 0.58 0.59 2/1234 56789\n").unwrap();
    assert_eq!(w, vec!["0.52", "0.58", "0.59", "2/1234", "56789"]);
}

#[test]
fn loadavg_words_rejects_short_content() {
    match loadavg_words("0.52 0.58 0.59 2/1234") {
        Err(CollectorError::InvalidFormat { location, reason }) => {
            assert_eq!(location, "/proc/loadavg");
            assert_eq!(reason, "Expected at least 5 fields");
        }
        other => panic!("unexpected: {:?}", other),
    }
}

#[test]
fn process_counts_are_read() {
    assert_eq!(parse_process_counts("2/1234").unwrap(), (2, 1234));
    assert_eq!(parse_process_counts("+0/4294967295").unwrap(), (0, 4294967295));
}

#[test]
fn process_counts_need_one_slash() {
    match parse_process_counts("2/3/4") {
        Err(CollectorError::InvalidFormat { reason, .. }) => {
            assert_eq!(reason, "process field must be in format 'running/total'")
        }
        other => panic!("unexpected: {:?}", other),
    }
    assert!(matches!(parse_process_counts("1234"), Err(CollectorError::InvalidFormat { .. })));
}

#[test]
fn process_counts_name_the_bad_part() {
    match parse_process_counts("x/10") {
        Err(CollectorError::ParseError { metric, location, reason }) => {
            assert_eq!(metric, "running_processes");
            assert_eq!(location, "/proc/loadavg");
            assert_eq!(reason, "invalid value: x");
        }
        other => panic!("unexpected: {:?}", other),
    }
    match parse_process_counts("1/4294967296") {
        Err(CollectorError::ParseError { metric, reason, .. }) => {
            assert_eq!(metric, "total_processes");
            assert_eq!(reason, "invalid value: 4294967296");
        }
        other => panic!("unexpected: {:?}", other),
    }
}
