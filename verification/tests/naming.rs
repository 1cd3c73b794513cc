use nv_sensors_fs::sensors::{kind_file_name, render_reading, Sensor, SensorKind};
use nv_sensors_fs::text::{u64_to_dec_bytes, u64_to_string};

#[test]
fn decimal_strings_are_exact() {
    assert_eq!(u64_to_string(0), "0");
    assert_eq!(u64_to_string(7), "7");
    assert_eq!(u64_to_string(10), "10");
    assert_eq!(u64_to_string(45000), "45000");
    assert_eq!(u64_to_string(1234567890), "1234567890");
    assert_eq!(u64_to_string(u64::MAX), "18446744073709551615");
}

#[test]
fn decimal_bytes_are_exact() {
    assert_eq!(u64_to_dec_bytes(0), b"0".to_vec());
    assert_eq!(u64_to_dec_bytes(45000), b"45000".to_vec());
    assert_eq!(u64_to_dec_bytes(u64::MAX), b"18446744073709551615".to_vec());
}

#[test]
fn every_kind_has_its_fixed_file_name() {
    assert_eq!(kind_file_name(&SensorKind::Bar1MemoryFree), "bar1_memory_free");
    assert_eq!(kind_file_name(&SensorKind::Bar1MemoryTotal), "bar1_memory_total");
    assert_eq!(kind_file_name(&SensorKind::Bar1MemoryUsed), "bar1_memory_used");
    assert_eq!(kind_file_name(&SensorKind::ClockGraphics), "clock_graphics");
    assert_eq!(kind_file_name(&SensorKind::ClockMemory), "clock_memory");
    assert_eq!(
        kind_file_name(&SensorKind::ClockStreamingMultiprocessor),
        "clock_streaming_multiprocessor"
    );
    assert_eq!(kind_file_name(&SensorKind::ClockVideo), "clock_video");
    assert_eq!(kind_file_name(&SensorKind::DecoderUtilization), "decoder_utilization");
    assert_eq!(
        kind_file_name(&SensorKind::DecoderUtilizationSamplingPeriod),
        "decoder_utilization_sampling_period"
    );
    assert_eq!(kind_file_name(&SensorKind::EncoderUtilization), "encoder_utilization");
    assert_eq!(
        kind_file_name(&SensorKind::EncoderUtilizationSamplingPeriod),
        "encoder_utilization_sampling_period"
    );
    assert_eq!(kind_file_name(&SensorKind::EnforcedPowerLimit), "enforced_power_limit");
    assert_eq!(kind_file_name(&SensorKind::FanSpeed(0)), "fan_speed_0");
    assert_eq!(kind_file_name(&SensorKind::FanSpeed(3)), "fan_speed_3");
    assert_eq!(kind_file_name(&SensorKind::FanSpeed(42)), "fan_speed_42");
    assert_eq!(kind_file_name(&SensorKind::MemoryFree), "memory_free");
    assert_eq!(kind_file_name(&SensorKind::MemoryTotal), "memory_total");
    assert_eq!(kind_file_name(&SensorKind::MemoryUsed), "memory_used");
    assert_eq!(kind_file_name(&SensorKind::Name), "name");
    assert_eq!(kind_file_name(&SensorKind::PcieThroughputReceive), "pcie_throughput_receive");
    assert_eq!(kind_file_name(&SensorKind::PcieThroughputSend), "pcie_throughput_send");
    assert_eq!(kind_file_name(&SensorKind::PerformanceState), "performance_state");
    assert_eq!(kind_file_name(&SensorKind::PowerSource), "power_source");
    assert_eq!(kind_file_name(&SensorKind::PowerUsage), "power_usage");
    assert_eq!(kind_file_name(&SensorKind::Temperature), "temperature");
    assert_eq!(kind_file_name(&SensorKind::TemperatureThreshold), "temperature_threshold");
    assert_eq!(kind_file_name(&SensorKind::TotalEnergyConsumption), "total_energy_consumption");
    assert_eq!(kind_file_name(&SensorKind::UtilizationRateGpu), "utilization_rate_gpu");
    assert_eq!(kind_file_name(&SensorKind::UtilizationRateMemory), "utilization_rate_memory");
}

#[test]
fn scaled_kinds_render_in_milli_units() {
    // A temperature of 45 degrees is published as 45000 millidegrees.
    assert_eq!(render_reading(SensorKind::Temperature, 45), b"45000".to_vec());
    assert_eq!(render_reading(SensorKind::TemperatureThreshold, 90), b"90000".to_vec());
    assert_eq!(render_reading(SensorKind::PowerUsage, 123), b"123000".to_vec());
    assert_eq!(render_reading(SensorKind::EnforcedPowerLimit, 450), b"450000".to_vec());
}

#[test]
fn unscaled_kinds_render_verbatim() {
    assert_eq!(render_reading(SensorKind::ClockGraphics, 2100), b"2100".to_vec());
    assert_eq!(render_reading(SensorKind::UtilizationRateGpu, 99), b"99".to_vec());
    assert_eq!(render_reading(SensorKind::MemoryTotal, 8589934592), b"8589934592".to_vec());
    assert_eq!(render_reading(SensorKind::FanSpeed(1), 40), b"40".to_vec());
    assert_eq!(render_reading(SensorKind::TotalEnergyConsumption, 0), b"0".to_vec());
}

#[test]
fn catalog_length_is_fixed_kinds_plus_reported_fans() {
    for fans in [0u32, 1, 2, 7] {
        let catalog = Sensor::catalog_with_fans(3, fans);
        assert_eq!(catalog.len(), 26 + fans as usize);
        assert!(catalog.iter().all(|s| s.device_index == 3));
        // The tail is FanSpeed(0) .. FanSpeed(fans - 1), in order.
        for (i, sensor) in catalog[26..].iter().enumerate() {
            assert_eq!(sensor.kind, SensorKind::FanSpeed(i as u32));
        }
    }
}

#[test]
fn catalog_prefix_is_every_fixed_kind_once_in_order() {
    let catalog = Sensor::catalog_with_fans(0, 0);
    let kinds: Vec<SensorKind> = catalog.iter().map(|s| s.kind).collect();
    assert_eq!(
        kinds,
        vec![
            SensorKind::Bar1MemoryFree,
            SensorKind::Bar1MemoryTotal,
            SensorKind::Bar1MemoryUsed,
            SensorKind::ClockGraphics,
            SensorKind::ClockMemory,
            SensorKind::ClockStreamingMultiprocessor,
            SensorKind::ClockVideo,
            SensorKind::DecoderUtilization,
            SensorKind::DecoderUtilizationSamplingPeriod,
            SensorKind::EncoderUtilization,
            SensorKind::EncoderUtilizationSamplingPeriod,
            SensorKind::EnforcedPowerLimit,
            SensorKind::MemoryFree,
            SensorKind::MemoryTotal,
            SensorKind::MemoryUsed,
            SensorKind::Name,
            SensorKind::PcieThroughputReceive,
            SensorKind::PcieThroughputSend,
            SensorKind::PerformanceState,
            SensorKind::PowerSource,
            SensorKind::PowerUsage,
            SensorKind::Temperature,
            SensorKind::TemperatureThreshold,
            SensorKind::TotalEnergyConsumption,
            SensorKind::UtilizationRateGpu,
            SensorKind::UtilizationRateMemory,
        ]
    );
}

#[test]
fn catalog_file_names_are_pairwise_distinct() {
    let catalog = Sensor::catalog_with_fans(0, 4);
    let mut names: Vec<String> =
        catalog.iter().map(|s| kind_file_name(&s.kind)).collect();
    let total = names.len();
    names.sort();
    names.dedup();
    assert_eq!(names.len(), total);
}
