use blazebee::agent::collectors::mdraid::{parse_mdstat, MdRaidCollector};

#[test]
fn test_mdraid_collector_creation() {
    let _ = MdRaidCollector::new();
    let _ = MdRaidCollector::default();
    // Both instances should be created successfully
}

#[test]
fn mdstat_reads_array_and_status_lines() {
    let content = "Personalities : [raid1] [raid6]\n\
md0 : active raid1 sdb1[1] sda1[0]\n\
      1048512 blocks [2/2] [UU]\n\
\n\
md1 : active raid5 sdc1[2] sdd1[1] sde1[0]\n\
      2096128 blocks level 5, 64k chunk, algorithm 2 [3/2] [U_U]\n\
unused devices: <none>\n";
    let arrays = parse_mdstat(content);
    assert_eq!(arrays.len(), 2);
    assert_eq!(arrays[0].device, "md0");
    assert_eq!(arrays[0].state, "active");
    assert_eq!(arrays[0].level, "raid1");
    assert_eq!(arrays[0].active_devices, 2);
    assert_eq!(arrays[0].total_devices, 2);
    assert_eq!(arrays[0].failed_devices, 0);
    assert_eq!(arrays[0].spare_devices, 0);
    assert_eq!(arrays[1].device, "md1");
    assert_eq!(arrays[1].level, "raid5");
    assert_eq!(arrays[1].active_devices, 2);
    assert_eq!(arrays[1].total_devices, 3);
    assert_eq!(arrays[1].failed_devices, 1);
}

#[test]
fn mdstat_array_line_without_status_ends_reading() {
    let arrays = parse_mdstat("md9: active raid0 sda[0]\n");
    assert!(arrays.is_empty());
    let arrays = parse_mdstat("md2: x\nmd3: active raid1 sdf[0]\n [1/1] [U]\n");
    assert_eq!(arrays.len(), 1);
    assert_eq!(arrays[0].device, "md3");
}

#[test]
fn mdstat_mirror_with_both_members_up() {
    let arrays = parse_mdstat("md0 : active raid1 sdb1[1] sda1[0]\n      1953382464 blocks super 1.2 [2/2] [UU]");
    assert_eq!(arrays.len(), 1);
    let a = &arrays[0];
    assert_eq!((a.device.as_str(), a.state.as_str(), a.level.as_str()), ("md0", "active", "raid1"));
    assert_eq!((a.active_devices, a.total_devices, a.failed_devices, a.spare_devices), (2, 2, 0, 0));
}
