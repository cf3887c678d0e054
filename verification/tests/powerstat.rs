use blazebee::agent::collectors::powerstat::{power_supply_stats, PowerBuffer, PowerCollector, PowerStats};

#[test]
fn test_power_stats_creation() {
    let power_stats = PowerStats {
        name: "BAT0".to_string(),
        supply_type: "Battery".to_string(),
        status: "Discharging".to_string(),
        capacity_percent: Some(75),
        energy_now: Some(50_000_000),
        energy_full: Some(60_000_000),
        power_now: Some(10_000_000),
        voltage_now: Some(12_000_000),
    };

    assert_eq!(power_stats.name, "BAT0");
    assert_eq!(power_stats.status, "Discharging");
    assert_eq!(power_stats.capacity_percent, Some(75));
    assert_eq!(power_stats.supply_type, "Battery");
}

#[test]
fn test_power_buffer() {
    let mut buffer = PowerBuffer::new();

    let power_stats = PowerStats {
        name: "AC0".to_string(),
        supply_type: "Mains".to_string(),
        status: "Online".to_string(),
        capacity_percent: None,
        energy_now: None,
        energy_full: None,
        power_now: None,
        voltage_now: Some(220_000_000),
    };

    buffer.push(power_stats);
    assert_eq!(buffer.len(), 1);
    assert!(!buffer.is_empty());
}

#[test]
fn test_power_battery_charging() {
    let power_stats = PowerStats {
        name: "BAT0".to_string(),
        supply_type: "Battery".to_string(),
        status: "Charging".to_string(),
        capacity_percent: Some(50),
        energy_now: Some(30_000_000),
        energy_full: Some(60_000_000),
        power_now: Some(15_000_000),
        voltage_now: Some(12_500_000),
    };

    assert_eq!(power_stats.status, "Charging");
    assert!(power_stats.capacity_percent.unwrap() < 100);
    // Power should be positive when charging
    assert!(power_stats.power_now.unwrap() > 0);
}

#[test]
fn test_power_battery_full() {
    let power_stats = PowerStats {
        name: "BAT0".to_string(),
        supply_type: "Battery".to_string(),
        status: "Full".to_string(),
        capacity_percent: Some(100),
        energy_now: Some(60_000_000),
        energy_full: Some(60_000_000),
        power_now: Some(0),
        voltage_now: Some(12_600_000),
    };

    assert_eq!(power_stats.status, "Full");
    assert_eq!(power_stats.capacity_percent, Some(100));
    assert_eq!(power_stats.energy_now, power_stats.energy_full);
}

#[test]
fn test_power_usb_supply() {
    let power_stats = PowerStats {
        name: "USB1".to_string(),
        supply_type: "USB".to_string(),
        status: "Online".to_string(),
        capacity_percent: None,
        energy_now: None,
        energy_full: None,
        power_now: Some(5_000_000),
        voltage_now: Some(5_000_000),
    };

    assert_eq!(power_stats.supply_type, "USB");
    assert_eq!(power_stats.status, "Online");
    assert!(power_stats.capacity_percent.is_none()); // USB doesn't have capacity
}

#[test]
fn test_power_buffer_multiple_sources() {
    let mut buffer = PowerBuffer::with_capacity(3);

    let sources = vec![
        PowerStats {
            name: "BAT0".to_string(),
            supply_type: "Battery".to_string(),
            status: "Charging".to_string(),
            capacity_percent: Some(60),
            energy_now: Some(36_000_000),
            energy_full: Some(60_000_000),
            power_now: Some(12_000_000),
            voltage_now: Some(12_200_000),
        },
        PowerStats {
            name: "AC0".to_string(),
            supply_type: "Mains".to_string(),
            status: "Online".to_string(),
            capacity_percent: None,
            energy_now: None,
            energy_full: None,
            power_now: Some(45_000_000),
            voltage_now: Some(230_000_000),
        },
        PowerStats {
            name: "USB0".to_string(),
            supply_type: "USB".to_string(),
            status: "Disconnected".to_string(),
            capacity_percent: None,
            energy_now: None,
            energy_full: None,
            power_now: None,
            voltage_now: None,
        },
    ];

    for source in sources {
        buffer.push(source);
    }

    assert_eq!(buffer.len(), 3);
    let count = buffer.iter().count();
    assert_eq!(count, 3);
}

#[test]
fn test_power_battery_critical() {
    let power_stats = PowerStats {
        name: "BAT0".to_string(),
        supply_type: "Battery".to_string(),
        status: "Discharging".to_string(),
        capacity_percent: Some(5), // Critical level
        energy_now: Some(3_000_000),
        energy_full: Some(60_000_000),
        power_now: Some(8_000_000),
        voltage_now: Some(11_000_000),
    };

    assert_eq!(power_stats.capacity_percent, Some(5));
    assert_eq!(power_stats.status, "Discharging");
    // Critical battery level
    assert!(power_stats.capacity_percent.unwrap() < 10);
}

#[test]
fn test_power_collector_creation() {
    let _ = PowerCollector::new();
    let _ = PowerCollector::default();
    // Both instances should be created successfully
}

#[test]
fn test_power_buffer_clone() {
    let mut buffer1 = PowerBuffer::new();

    let power_stats = PowerStats {
        name: "BAT0".to_string(),
        supply_type: "Battery".to_string(),
        status: "Charging".to_string(),
        capacity_percent: Some(50),
        energy_now: Some(30_000_000),
        energy_full: Some(60_000_000),
        power_now: Some(15_000_000),
        voltage_now: Some(12_200_000),
    };

    buffer1.push(power_stats);
    let buffer2 = buffer1.clone();

    assert_eq!(buffer1.len(), buffer2.len());
    assert_eq!(buffer1.len(), 1);
}

#[test]
fn test_power_stats_none_values() {
    let power_stats = PowerStats {
        name: "AC0".to_string(),
        supply_type: "Mains".to_string(),
        status: "Online".to_string(),
        capacity_percent: None,
        energy_now: None,
        energy_full: None,
        power_now: None,
        voltage_now: None,
    };

    // AC adapters typically don't have battery metrics
    assert!(power_stats.capacity_percent.is_none());
    assert!(power_stats.energy_now.is_none());
    assert!(power_stats.energy_full.is_none());
    assert!(power_stats.power_now.is_none());
    assert!(power_stats.voltage_now.is_none());
}

#[test]
fn test_power_remaining_time_calculation() {
    let power_stats = PowerStats {
        name: "BAT0".to_string(),
        supply_type: "Battery".to_string(),
        status: "Discharging".to_string(),
        capacity_percent: Some(50),
        energy_now: Some(30_000_000),  // 30 watt-hours
        energy_full: Some(60_000_000), // 60 watt-hours
        power_now: Some(15_000_000),   // 15 watts
        voltage_now: Some(12_000_000), // 12 volts
    };

    // Approximate remaining time in hours = energy_now / power_now
    if let (Some(energy), Some(power)) = (power_stats.energy_now, power_stats.power_now) {
        let remaining_hours = energy as f64 / power as f64;
        assert_eq!(remaining_hours, 2.0); // 30 watt-hours / 15 watts = 2 hours
    }
}

#[test]
fn power_supply_attributes_are_read() {
    let s = power_supply_stats(
        "BAT0".to_string(),
        Some("Battery\n"),
        Some("Discharging\n"),
        Some("87\n"),
        Some("41000000\n"),
        Some("50000000\n"),
        Some("9500000\n"),
        Some("12100000\n"),
    );
    assert_eq!(s.name, "BAT0");
    assert_eq!(s.supply_type, "Battery");
    assert_eq!(s.status, "Discharging");
    assert_eq!(s.capacity_percent, Some(87));
    assert_eq!(s.energy_now, Some(41000000));
    assert_eq!(s.energy_full, Some(50000000));
    assert_eq!(s.power_now, Some(9500000));
    assert_eq!(s.voltage_now, Some(12100000));
}

#[test]
fn power_supply_missing_or_bad_attributes() {
    let s = power_supply_stats("AC".to_string(), Some("Mains"), None, Some("300"), None, Some("x"), None, None);
    assert_eq!(s.supply_type, "Mains");
    assert_eq!(s.status, "");
    assert_eq!(s.capacity_percent, None);
    assert_eq!(s.energy_now, None);
    assert_eq!(s.energy_full, None);
}
