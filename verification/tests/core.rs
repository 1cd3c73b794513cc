use nv_sensors_fs::fs_core::{NvSensorFs, OpenError, ROOT_ID};
use nv_sensors_fs::sensors::{SampleError, Sensor, SensorKind};

fn demo_fs() -> NvSensorFs {
    // Two devices: device 0 exposes {Temperature}, device 1 exposes
    // {Temperature, FanSpeed(0)}.
    let mut fs = NvSensorFs::new();
    let catalogs = vec![
        vec![SensorKind::Temperature],
        vec![SensorKind::Temperature, SensorKind::FanSpeed(0)],
    ];
    assert!(fs.rebuild(2, &catalogs));
    fs
}

#[test]
fn root_listing_names_devices_in_order() {
    let fs = demo_fs();
    let entries = fs.children_of(ROOT_ID, 0).expect("root is a directory");
    let names: Vec<&str> = entries.iter().map(|e| e.name.as_str()).collect();
    assert_eq!(names, ["0", "1"]);
    assert!(entries.iter().all(|e| e.is_dir));
}

#[test]
fn device_listing_names_sensors_in_catalog_order() {
    let fs = demo_fs();
    let dev1 = fs.resolve(ROOT_ID, &"1".to_string()).expect("device 1 exists");
    let entries = fs.children_of(dev1, 0).expect("device dir is a directory");
    let names: Vec<&str> = entries.iter().map(|e| e.name.as_str()).collect();
    assert_eq!(names, ["temperature", "fan_speed_0"]);
    assert!(entries.iter().all(|e| !e.is_dir));
}

#[test]
fn open_then_read_round_trips_sampled_value() {
    // Opening /0/temperature when the sampling call returned 45000 yields
    // read content exactly "45000\n".
    let mut fs = demo_fs();
    let dev0 = fs.resolve(ROOT_ID, &"0".to_string()).unwrap();
    let temp = fs.resolve(dev0, &"temperature".to_string()).unwrap();
    let sensor = fs.open_sensor(temp).expect("temperature is a sensor file");
    assert_eq!(sensor, Sensor { device_index: 0, kind: SensorKind::Temperature });

    let handle = fs.register_content(Ok(b"45000".to_vec())).unwrap();
    assert_eq!(fs.read(handle, 0, 100).unwrap(), b"45000\n".to_vec());
    // An offset equal to the content length yields an empty result.
    assert_eq!(fs.read(handle, 6, 100).unwrap(), Vec::<u8>::new());
    // An offset past the end is no error either.
    assert_eq!(fs.read(handle, 1000, 100).unwrap(), Vec::<u8>::new());
}

#[test]
fn read_honors_the_size_bound() {
    let mut fs = demo_fs();
    let handle = fs.register_content(Ok(b"45000".to_vec())).unwrap();
    assert_eq!(fs.read(handle, 0, 2).unwrap(), b"45".to_vec());
    assert_eq!(fs.read(handle, 2, 3).unwrap(), b"000".to_vec());
    assert_eq!(fs.read(handle, 5, 1).unwrap(), b"\n".to_vec());
    assert_eq!(fs.read(handle, 0, 0).unwrap(), Vec::<u8>::new());
}

#[test]
fn unsupported_sensor_reads_as_na_line() {
    let mut fs = demo_fs();
    let handle = fs.register_content(Err(SampleError::Unsupported)).unwrap();
    assert_eq!(fs.read(handle, 0, 4096).unwrap(), b"N/A\n".to_vec());
}

#[test]
fn hardware_error_also_reads_as_na_line() {
    let mut fs = demo_fs();
    let handle = fs.register_content(Err(SampleError::Hardware)).unwrap();
    assert_eq!(fs.read(handle, 0, 4096).unwrap(), b"N/A\n".to_vec());
}

#[test]
fn distinct_opens_get_distinct_handles_and_buffers() {
    let mut fs = demo_fs();
    let h1 = fs.register_content(Ok(b"45000".to_vec())).unwrap();
    let h2 = fs.register_content(Ok(b"46000".to_vec())).unwrap();
    assert_ne!(h1, h2);
    assert_eq!(fs.read(h1, 0, 100).unwrap(), b"45000\n".to_vec());
    assert_eq!(fs.read(h2, 0, 100).unwrap(), b"46000\n".to_vec());
}

#[test]
fn release_discards_the_buffer_and_is_idempotent() {
    let mut fs = demo_fs();
    let handle = fs.register_content(Ok(b"1".to_vec())).unwrap();
    assert!(fs.release(handle));
    assert!(fs.read(handle, 0, 10).is_none());
    assert!(!fs.release(handle));
    assert!(!fs.release(12345));
}

#[test]
fn read_of_unknown_handle_is_not_found() {
    let fs = demo_fs();
    assert!(fs.read(7, 0, 10).is_none());
}

#[test]
fn resolve_then_attributes_is_consistent_with_the_shape() {
    let fs = demo_fs();
    let dev0 = fs.resolve(ROOT_ID, &"0".to_string()).unwrap();
    let dev_attr = fs.attributes(dev0).unwrap();
    assert!(dev_attr.is_dir);
    assert_eq!(dev_attr.perm, 0o755);
    assert_eq!(dev_attr.ino, dev0);
    assert_eq!(dev_attr.size, 0);

    let temp = fs.resolve(dev0, &"temperature".to_string()).unwrap();
    let file_attr = fs.attributes(temp).unwrap();
    assert!(!file_attr.is_dir);
    assert_eq!(file_attr.perm, 0o444);
    assert_eq!(file_attr.ino, temp);
    assert_eq!(file_attr.size, 4096);
    assert_eq!(file_attr.nlink, 1);
}

#[test]
fn lookup_returns_the_childs_attributes() {
    let fs = demo_fs();
    let dev0 = fs.resolve(ROOT_ID, &"0".to_string()).unwrap();
    let attr = fs.lookup(ROOT_ID, &"0".to_string()).unwrap();
    assert_eq!(attr.ino, dev0);
    assert!(attr.is_dir);
    assert!(fs.lookup(ROOT_ID, &"2".to_string()).is_none());
    assert!(fs.lookup(ROOT_ID, &"temperature".to_string()).is_none());
}

#[test]
fn lookup_is_idempotent_under_unchanged_topology() {
    let fs = demo_fs();
    let first = fs.resolve(ROOT_ID, &"1".to_string());
    let second = fs.resolve(ROOT_ID, &"1".to_string());
    assert_eq!(first, second);
    assert!(first.is_some());
}

#[test]
fn resolution_is_case_sensitive_and_exact() {
    let mut fs = NvSensorFs::new();
    let catalogs = vec![vec![SensorKind::Temperature]];
    assert!(fs.rebuild(1, &catalogs));
    let dev0 = fs.resolve(ROOT_ID, &"0".to_string()).unwrap();
    assert!(fs.resolve(dev0, &"Temperature".to_string()).is_none());
    assert!(fs.resolve(dev0, &"temperatur".to_string()).is_none());
    assert!(fs.resolve(dev0, &"temperature ".to_string()).is_none());
}

#[test]
fn resolve_under_a_file_or_unknown_parent_fails() {
    let fs = demo_fs();
    let dev0 = fs.resolve(ROOT_ID, &"0".to_string()).unwrap();
    let temp = fs.resolve(dev0, &"temperature".to_string()).unwrap();
    assert!(fs.resolve(temp, &"anything".to_string()).is_none());
    assert!(fs.resolve(999, &"0".to_string()).is_none());
}

#[test]
fn readdir_pagination_is_stable_and_complete() {
    let mut fs = NvSensorFs::new();
    let catalogs = vec![vec![
        SensorKind::Temperature,
        SensorKind::PowerUsage,
        SensorKind::FanSpeed(0),
        SensorKind::FanSpeed(1),
        SensorKind::MemoryUsed,
    ]];
    assert!(fs.rebuild(1, &catalogs));
    let dev0 = fs.resolve(ROOT_ID, &"0".to_string()).unwrap();
    let full: Vec<u64> = fs.children_of(dev0, 0).unwrap().iter().map(|e| e.ino).collect();
    assert_eq!(full.len(), 5);

    // Concatenating pages resumed at every reported cursor reproduces the
    // full listing, for every page size.
    for page_size in 1..=5usize {
        let mut collected: Vec<u64> = Vec::new();
        let mut offset = 0usize;
        loop {
            let page = fs.children_of(dev0, offset).unwrap();
            if page.is_empty() {
                break;
            }
            let taken: Vec<_> = page.iter().take(page_size).collect();
            offset = taken.last().unwrap().next_offset as usize;
            collected.extend(taken.iter().map(|e| e.ino));
        }
        assert_eq!(collected, full, "page size {page_size}");
    }

    // Duplicate-free.
    let mut sorted = full.clone();
    sorted.sort();
    sorted.dedup();
    assert_eq!(sorted.len(), full.len());
}

#[test]
fn readdir_of_a_file_or_unknown_id_fails() {
    let fs = demo_fs();
    let dev0 = fs.resolve(ROOT_ID, &"0".to_string()).unwrap();
    let temp = fs.resolve(dev0, &"temperature".to_string()).unwrap();
    assert!(fs.children_of(temp, 0).is_none());
    assert!(fs.children_of(999, 0).is_none());
}

#[test]
fn open_of_a_directory_or_unknown_id_is_refused() {
    let fs = demo_fs();
    assert_eq!(fs.open_sensor(ROOT_ID), Err(OpenError::NotASensorFile));
    assert_eq!(fs.open_sensor(999), Err(OpenError::NotFound));
}

#[test]
fn rebuild_replaces_the_tree_and_dangling_ids_stop_resolving() {
    // A device-count change from 2 to 3 makes the next listing reflect
    // exactly 3 device directories with the sensor sets enumeration reports.
    let mut fs = demo_fs();
    let old_dev0 = fs.resolve(ROOT_ID, &"0".to_string()).unwrap();

    let catalogs = vec![
        vec![SensorKind::Temperature],
        vec![SensorKind::Temperature],
        vec![SensorKind::Name, SensorKind::PowerUsage],
    ];
    assert!(fs.rebuild(3, &catalogs));

    let entries = fs.children_of(ROOT_ID, 0).unwrap();
    let names: Vec<&str> = entries.iter().map(|e| e.name.as_str()).collect();
    assert_eq!(names, ["0", "1", "2"]);

    let dev2 = fs.resolve(ROOT_ID, &"2".to_string()).unwrap();
    let dev2_entries = fs.children_of(dev2, 0).unwrap();
    let sensors: Vec<&str> = dev2_entries.iter().map(|e| e.name.as_str()).collect();
    assert_eq!(sensors, ["name", "power_usage"]);

    // Identifiers are allocated monotonically, so the wiped entry's
    // identifier now simply fails to resolve.
    assert!(fs.attributes(old_dev0).is_none());
}

#[test]
fn open_sessions_survive_a_rebuild() {
    let mut fs = demo_fs();
    let handle = fs.register_content(Ok(b"45000".to_vec())).unwrap();
    let catalogs = vec![vec![SensorKind::Temperature]];
    assert!(fs.rebuild(1, &catalogs));
    assert_eq!(fs.read(handle, 0, 100).unwrap(), b"45000\n".to_vec());
    assert!(fs.release(handle));
}

#[test]
fn rebuild_to_zero_devices_leaves_an_empty_root() {
    let mut fs = demo_fs();
    let catalogs: Vec<Vec<SensorKind>> = Vec::new();
    assert!(fs.rebuild(0, &catalogs));
    assert!(fs.children_of(ROOT_ID, 0).unwrap().is_empty());
    assert!(fs.resolve(ROOT_ID, &"0".to_string()).is_none());
}

#[test]
fn fresh_store_has_only_an_empty_root() {
    let fs = NvSensorFs::new();
    assert!(fs.children_of(ROOT_ID, 0).unwrap().is_empty());
    let attr = fs.attributes(ROOT_ID).unwrap();
    assert!(attr.is_dir);
    assert_eq!(attr.ino, ROOT_ID);
    assert!(fs.attributes(2).is_none());
}

#[test]
fn many_fans_get_distinct_names() {
    let mut fs = NvSensorFs::new();
    let catalogs = vec![(0..12).map(SensorKind::FanSpeed).collect::<Vec<_>>()];
    assert!(fs.rebuild(1, &catalogs));
    let dev0 = fs.resolve(ROOT_ID, &"0".to_string()).unwrap();
    let names: Vec<String> =
        fs.children_of(dev0, 0).unwrap().iter().map(|e| e.name.clone()).collect();
    assert_eq!(names[0], "fan_speed_0");
    assert_eq!(names[9], "fan_speed_9");
    assert_eq!(names[10], "fan_speed_10");
    assert_eq!(names[11], "fan_speed_11");
    let mut sorted = names.clone();
    sorted.sort();
    sorted.dedup();
    assert_eq!(sorted.len(), names.len());
}

#[test]
fn full_catalog_lists_every_kind_under_its_name() {
    // The catalog shape enumeration produces: all 26 fixed kinds, then one
    // fan entry per fan.
    let kinds = vec![
        SensorKind::Bar1MemoryFree,
        SensorKind::Bar1MemoryTotal,
        SensorKind::Bar1MemoryUsed,
        SensorKind::ClockGraphics,
        SensorKind::ClockMemory,
        SensorKind::ClockStreamingMultiprocessor,
        SensorKind::ClockVideo,
        SensorKind::DecoderUtilization,
        SensorKind::DecoderUtilizationSamplingPeriod,
        SensorKind::EncoderUtilization,
        SensorKind::EncoderUtilizationSamplingPeriod,
        SensorKind::EnforcedPowerLimit,
        SensorKind::MemoryFree,
        SensorKind::MemoryTotal,
        SensorKind::MemoryUsed,
        SensorKind::Name,
        SensorKind::PcieThroughputReceive,
        SensorKind::PcieThroughputSend,
        SensorKind::PerformanceState,
        SensorKind::PowerSource,
        SensorKind::PowerUsage,
        SensorKind::Temperature,
        SensorKind::TemperatureThreshold,
        SensorKind::TotalEnergyConsumption,
        SensorKind::UtilizationRateGpu,
        SensorKind::UtilizationRateMemory,
        SensorKind::FanSpeed(0),
        SensorKind::FanSpeed(1),
    ];
    let mut fs = NvSensorFs::new();
    assert!(fs.rebuild(1, &vec![kinds.clone()]));
    let dev0 = fs.resolve(ROOT_ID, &"0".to_string()).unwrap();
    let entries = fs.children_of(dev0, 0).unwrap();
    assert_eq!(entries.len(), kinds.len());
    for (entry, kind) in entries.iter().zip(kinds.iter()) {
        assert_eq!(entry.name, nv_sensors_fs::sensors::kind_file_name(kind));
        assert!(!entry.is_dir);
        // Every kind resolves back to its own entry.
        assert_eq!(fs.resolve(dev0, &entry.name), Some(entry.ino));
        let sensor = fs.open_sensor(entry.ino).unwrap();
        assert_eq!(sensor.kind, *kind);
        assert_eq!(sensor.device_index, 0);
    }
}

#[test]
fn rebuild_refuses_an_exhausted_identifier_space() {
    let mut fs = demo_fs();
    let dev0 = fs.resolve(ROOT_ID, &"0".to_string()).unwrap();
    fs.last_inode_id = u64::MAX;
    let catalogs = vec![vec![SensorKind::Temperature]];
    assert!(!fs.rebuild(1, &catalogs));
    // The store is untouched: the old tree still resolves.
    assert_eq!(fs.resolve(ROOT_ID, &"0".to_string()), Some(dev0));
}

#[test]
fn open_refuses_an_exhausted_handle_space() {
    let mut fs = demo_fs();
    fs.last_file_handle = u64::MAX;
    assert!(fs.register_content(Ok(b"45000".to_vec())).is_none());
}
