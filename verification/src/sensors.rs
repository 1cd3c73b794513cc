//! The sensor catalog: the closed set of measurable quantities, the file name
//! each one is published under, and the per-device enumeration.

use vstd::prelude::*;
use crate::text::lemma_dec_chars_injective;
use crate::text::push_dec_chars;
use crate::text::spec_dec_chars;
use nvml_wrapper::Nvml;

verus! {

/// A measurable quantity of one device. `FanSpeed` carries the fan ordinal,
/// since a device may have any number of fans.
#[derive(Copy, Clone, Debug, PartialEq, Eq, Structural)]
pub enum SensorKind {
    Bar1MemoryFree,
    Bar1MemoryTotal,
    Bar1MemoryUsed,
    ClockGraphics,
    ClockMemory,
    ClockStreamingMultiprocessor,
    ClockVideo,
    DecoderUtilization,
    DecoderUtilizationSamplingPeriod,
    EncoderUtilization,
    EncoderUtilizationSamplingPeriod,
    EnforcedPowerLimit,
    FanSpeed(u32),
    MemoryFree,
    MemoryTotal,
    MemoryUsed,
    Name,
    PcieThroughputReceive,
    PcieThroughputSend,
    PerformanceState,
    PowerSource,
    PowerUsage,
    Temperature,
    TemperatureThreshold,
    TotalEnergyConsumption,
    UtilizationRateGpu,
    UtilizationRateMemory,
}

/// One sensor: a device ordinal paired with a kind.
#[derive(Copy, Clone, Debug, PartialEq, Eq, Structural)]
pub struct Sensor {
    pub device_index: u32,
    pub kind: SensorKind,
}

/// How a sampling attempt fails. `Unsupported` means the device does not
/// implement the sensor; `Hardware` is any other failure and is taken as a
/// hint that the device topology may have changed.
#[derive(Copy, Clone, Debug, PartialEq, Eq, Structural)]
pub enum SampleError {
    Unsupported,
    Hardware,
}

/// The file name a sensor kind is published under.
pub open spec fn spec_kind_name(k: SensorKind) -> Seq<char> {
    match k {
        SensorKind::Bar1MemoryFree => "bar1_memory_free"@,
        SensorKind::Bar1MemoryTotal => "bar1_memory_total"@,
        SensorKind::Bar1MemoryUsed => "bar1_memory_used"@,
        SensorKind::ClockGraphics => "clock_graphics"@,
        SensorKind::ClockMemory => "clock_memory"@,
        SensorKind::ClockStreamingMultiprocessor => "clock_streaming_multiprocessor"@,
        SensorKind::ClockVideo => "clock_video"@,
        SensorKind::DecoderUtilization => "decoder_utilization"@,
        SensorKind::DecoderUtilizationSamplingPeriod => "decoder_utilization_sampling_period"@,
        SensorKind::EncoderUtilization => "encoder_utilization"@,
        SensorKind::EncoderUtilizationSamplingPeriod => "encoder_utilization_sampling_period"@,
        SensorKind::EnforcedPowerLimit => "enforced_power_limit"@,
        SensorKind::FanSpeed(i) => "fan_speed_"@ + spec_dec_chars(i as nat),
        SensorKind::MemoryFree => "memory_free"@,
        SensorKind::MemoryTotal => "memory_total"@,
        SensorKind::MemoryUsed => "memory_used"@,
        SensorKind::Name => "name"@,
        SensorKind::PcieThroughputReceive => "pcie_throughput_receive"@,
        SensorKind::PcieThroughputSend => "pcie_throughput_send"@,
        SensorKind::PerformanceState => "performance_state"@,
        SensorKind::PowerSource => "power_source"@,
        SensorKind::PowerUsage => "power_usage"@,
        SensorKind::Temperature => "temperature"@,
        SensorKind::TemperatureThreshold => "temperature_threshold"@,
        SensorKind::TotalEnergyConsumption => "total_energy_consumption"@,
        SensorKind::UtilizationRateGpu => "utilization_rate_gpu"@,
        SensorKind::UtilizationRateMemory => "utilization_rate_memory"@,
    }
}

/// The length of the name of a kind that is not `FanSpeed`.
pub open spec fn nonfan_name_len(k: SensorKind) -> int {
    match k {
        SensorKind::Bar1MemoryFree => 16,
        SensorKind::Bar1MemoryTotal => 17,
        SensorKind::Bar1MemoryUsed => 16,
        SensorKind::ClockGraphics => 14,
        SensorKind::ClockMemory => 12,
        SensorKind::ClockStreamingMultiprocessor => 30,
        SensorKind::ClockVideo => 11,
        SensorKind::DecoderUtilization => 19,
        SensorKind::DecoderUtilizationSamplingPeriod => 35,
        SensorKind::EncoderUtilization => 19,
        SensorKind::EncoderUtilizationSamplingPeriod => 35,
        SensorKind::EnforcedPowerLimit => 20,
        SensorKind::FanSpeed(_) => 0,
        SensorKind::MemoryFree => 11,
        SensorKind::MemoryTotal => 12,
        SensorKind::MemoryUsed => 11,
        SensorKind::Name => 4,
        SensorKind::PcieThroughputReceive => 23,
        SensorKind::PcieThroughputSend => 20,
        SensorKind::PerformanceState => 17,
        SensorKind::PowerSource => 12,
        SensorKind::PowerUsage => 11,
        SensorKind::Temperature => 11,
        SensorKind::TemperatureThreshold => 21,
        SensorKind::TotalEnergyConsumption => 24,
        SensorKind::UtilizationRateGpu => 20,
        SensorKind::UtilizationRateMemory => 23,
    }
}

/// The first character of the name of a kind that is not `FanSpeed`.
pub open spec fn nonfan_name_first(k: SensorKind) -> char {
    match k {
        SensorKind::Bar1MemoryFree => 'b',
        SensorKind::Bar1MemoryTotal => 'b',
        SensorKind::Bar1MemoryUsed => 'b',
        SensorKind::ClockGraphics => 'c',
        SensorKind::ClockMemory => 'c',
        SensorKind::ClockStreamingMultiprocessor => 'c',
        SensorKind::ClockVideo => 'c',
        SensorKind::DecoderUtilization => 'd',
        SensorKind::DecoderUtilizationSamplingPeriod => 'd',
        SensorKind::EncoderUtilization => 'e',
        SensorKind::EncoderUtilizationSamplingPeriod => 'e',
        SensorKind::EnforcedPowerLimit => 'e',
        SensorKind::FanSpeed(_) => ' ',
        SensorKind::MemoryFree => 'm',
        SensorKind::MemoryTotal => 'm',
        SensorKind::MemoryUsed => 'm',
        SensorKind::Name => 'n',
        SensorKind::PcieThroughputReceive => 'p',
        SensorKind::PcieThroughputSend => 'p',
        SensorKind::PerformanceState => 'p',
        SensorKind::PowerSource => 'p',
        SensorKind::PowerUsage => 'p',
        SensorKind::Temperature => 't',
        SensorKind::TemperatureThreshold => 't',
        SensorKind::TotalEnergyConsumption => 't',
        SensorKind::UtilizationRateGpu => 'u',
        SensorKind::UtilizationRateMemory => 'u',
    }
}

/// The last character of the name of a kind that is not `FanSpeed`.
pub open spec fn nonfan_name_last(k: SensorKind) -> char {
    match k {
        SensorKind::Bar1MemoryFree => 'e',
        SensorKind::Bar1MemoryTotal => 'l',
        SensorKind::Bar1MemoryUsed => 'd',
        SensorKind::ClockGraphics => 's',
        SensorKind::ClockMemory => 'y',
        SensorKind::ClockStreamingMultiprocessor => 'r',
        SensorKind::ClockVideo => 'o',
        SensorKind::DecoderUtilization => 'n',
        SensorKind::DecoderUtilizationSamplingPeriod => 'd',
        SensorKind::EncoderUtilization => 'n',
        SensorKind::EncoderUtilizationSamplingPeriod => 'd',
        SensorKind::EnforcedPowerLimit => 't',
        SensorKind::FanSpeed(_) => ' ',
        SensorKind::MemoryFree => 'e',
        SensorKind::MemoryTotal => 'l',
        SensorKind::MemoryUsed => 'd',
        SensorKind::Name => 'e',
        SensorKind::PcieThroughputReceive => 'e',
        SensorKind::PcieThroughputSend => 'd',
        SensorKind::PerformanceState => 'e',
        SensorKind::PowerSource => 'e',
        SensorKind::PowerUsage => 'e',
        SensorKind::Temperature => 'e',
        SensorKind::TemperatureThreshold => 'd',
        SensorKind::TotalEnergyConsumption => 'n',
        SensorKind::UtilizationRateGpu => 'u',
        SensorKind::UtilizationRateMemory => 'y',
    }
}

proof fn reveal_kind_names()
    ensures
        forall|k: SensorKind|
            !(k matches SensorKind::FanSpeed(_)) ==> {
                let s = #[trigger] spec_kind_name(k);
                s.len() == nonfan_name_len(k) && s.first() == nonfan_name_first(k) && s.last()
                    == nonfan_name_last(k)
            },
        "fan_speed_"@.len() == 10,
        "fan_speed_"@.first() == 'f',
{
    reveal_strlit("bar1_memory_free");
    reveal_strlit("bar1_memory_total");
    reveal_strlit("bar1_memory_used");
    reveal_strlit("clock_graphics");
    reveal_strlit("clock_memory");
    reveal_strlit("clock_streaming_multiprocessor");
    reveal_strlit("clock_video");
    reveal_strlit("decoder_utilization");
    reveal_strlit("decoder_utilization_sampling_period");
    reveal_strlit("encoder_utilization");
    reveal_strlit("encoder_utilization_sampling_period");
    reveal_strlit("enforced_power_limit");
    reveal_strlit("fan_speed_");
    reveal_strlit("memory_free");
    reveal_strlit("memory_total");
    reveal_strlit("memory_used");
    reveal_strlit("name");
    reveal_strlit("pcie_throughput_receive");
    reveal_strlit("pcie_throughput_send");
    reveal_strlit("performance_state");
    reveal_strlit("power_source");
    reveal_strlit("power_usage");
    reveal_strlit("temperature");
    reveal_strlit("temperature_threshold");
    reveal_strlit("total_energy_consumption");
    reveal_strlit("utilization_rate_gpu");
    reveal_strlit("utilization_rate_memory");
}

/// Distinct sensor kinds are published under distinct file names.
pub proof fn lemma_kind_name_injective(k1: SensorKind, k2: SensorKind)
    requires
        k1 != k2,
    ensures
        spec_kind_name(k1) != spec_kind_name(k2),
{
    reveal_kind_names();
    let s1 = spec_kind_name(k1);
    let s2 = spec_kind_name(k2);
    match (k1, k2) {
        (SensorKind::FanSpeed(i1), SensorKind::FanSpeed(i2)) => {
            lemma_dec_chars_injective(i1 as nat, i2 as nat);
            let d1 = spec_dec_chars(i1 as nat);
            let d2 = spec_dec_chars(i2 as nat);
            if s1 == s2 {
                assert(s1.len() == s2.len());
                assert(d1 =~= d2) by {
                    assert forall|t: int| 0 <= t < d1.len() implies d1[t] == d2[t] by {
                        assert(s1[10 + t] == s2[10 + t]);
                    }
                }
            }
        },
        (SensorKind::FanSpeed(_), _) => {
            assert(s1.first() == 'f');
            assert(s2.first() != 'f');
            if s1 == s2 {
                assert(s1.first() == s2.first());
            }
        },
        (_, SensorKind::FanSpeed(_)) => {
            assert(s2.first() == 'f');
            assert(s1.first() != 'f');
            if s1 == s2 {
                assert(s1.first() == s2.first());
            }
        },
        _ => {
            assert(nonfan_name_len(k1) != nonfan_name_len(k2) || nonfan_name_first(k1)
                != nonfan_name_first(k2) || nonfan_name_last(k1) != nonfan_name_last(k2));
            if s1 == s2 {
                assert(s1.len() == s2.len());
                assert(s1.first() == s2.first());
                assert(s1.last() == s2.last());
            }
        },
    }
}

/// The file name a sensor kind is published under.
pub fn kind_file_name(k: &SensorKind) -> (r: String)
    ensures
        r@ == spec_kind_name(*k),
{
    match k {
        SensorKind::Bar1MemoryFree => "bar1_memory_free".to_owned(),
        SensorKind::Bar1MemoryTotal => "bar1_memory_total".to_owned(),
        SensorKind::Bar1MemoryUsed => "bar1_memory_used".to_owned(),
        SensorKind::ClockGraphics => "clock_graphics".to_owned(),
        SensorKind::ClockMemory => "clock_memory".to_owned(),
        SensorKind::ClockStreamingMultiprocessor => "clock_streaming_multiprocessor".to_owned(),
        SensorKind::ClockVideo => "clock_video".to_owned(),
        SensorKind::DecoderUtilization => "decoder_utilization".to_owned(),
        SensorKind::DecoderUtilizationSamplingPeriod => "decoder_utilization_sampling_period".to_owned(),
        SensorKind::EncoderUtilization => "encoder_utilization".to_owned(),
        SensorKind::EncoderUtilizationSamplingPeriod => "encoder_utilization_sampling_period".to_owned(),
        SensorKind::EnforcedPowerLimit => "enforced_power_limit".to_owned(),
        SensorKind::FanSpeed(i) => {
            let mut s = "fan_speed_".to_owned();
            push_dec_chars(&mut s, *i as u64);
            s
        },
        SensorKind::MemoryFree => "memory_free".to_owned(),
        SensorKind::MemoryTotal => "memory_total".to_owned(),
        SensorKind::MemoryUsed => "memory_used".to_owned(),
        SensorKind::Name => "name".to_owned(),
        SensorKind::PcieThroughputReceive => "pcie_throughput_receive".to_owned(),
        SensorKind::PcieThroughputSend => "pcie_throughput_send".to_owned(),
        SensorKind::PerformanceState => "performance_state".to_owned(),
        SensorKind::PowerSource => "power_source".to_owned(),
        SensorKind::PowerUsage => "power_usage".to_owned(),
        SensorKind::Temperature => "temperature".to_owned(),
        SensorKind::TemperatureThreshold => "temperature_threshold".to_owned(),
        SensorKind::TotalEnergyConsumption => "total_energy_consumption".to_owned(),
        SensorKind::UtilizationRateGpu => "utilization_rate_gpu".to_owned(),
        SensorKind::UtilizationRateMemory => "utilization_rate_memory".to_owned(),
    }
}

/// The fixed, fan-independent part of every device's catalog, by position.
pub open spec fn spec_fixed_kind(j: int) -> SensorKind {
    if j == 0 {
        SensorKind::Bar1MemoryFree
    } else if j == 1 {
        SensorKind::Bar1MemoryTotal
    } else if j == 2 {
        SensorKind::Bar1MemoryUsed
    } else if j == 3 {
        SensorKind::ClockGraphics
    } else if j == 4 {
        SensorKind::ClockMemory
    } else if j == 5 {
        SensorKind::ClockStreamingMultiprocessor
    } else if j == 6 {
        SensorKind::ClockVideo
    } else if j == 7 {
        SensorKind::DecoderUtilization
    } else if j == 8 {
        SensorKind::DecoderUtilizationSamplingPeriod
    } else if j == 9 {
        SensorKind::EncoderUtilization
    } else if j == 10 {
        SensorKind::EncoderUtilizationSamplingPeriod
    } else if j == 11 {
        SensorKind::EnforcedPowerLimit
    } else if j == 12 {
        SensorKind::MemoryFree
    } else if j == 13 {
        SensorKind::MemoryTotal
    } else if j == 14 {
        SensorKind::MemoryUsed
    } else if j == 15 {
        SensorKind::Name
    } else if j == 16 {
        SensorKind::PcieThroughputReceive
    } else if j == 17 {
        SensorKind::PcieThroughputSend
    } else if j == 18 {
        SensorKind::PerformanceState
    } else if j == 19 {
        SensorKind::PowerSource
    } else if j == 20 {
        SensorKind::PowerUsage
    } else if j == 21 {
        SensorKind::Temperature
    } else if j == 22 {
        SensorKind::TemperatureThreshold
    } else if j == 23 {
        SensorKind::TotalEnergyConsumption
    } else if j == 24 {
        SensorKind::UtilizationRateGpu
    } else {
        SensorKind::UtilizationRateMemory
    }
}

/// The full catalog of a device with `nf` fans, by position: the 26 fixed
/// kinds first, then one `FanSpeed` entry per fan.
pub open spec fn spec_catalog_kind(j: int) -> SensorKind {
    if j < 26 {
        spec_fixed_kind(j)
    } else {
        SensorKind::FanSpeed((j - 26) as u32)
    }
}

/// Distinct catalog positions hold distinct kinds.
pub proof fn lemma_catalog_kind_injective(j1: int, j2: int)
    requires
        0 <= j1 < j2,
        j2 < 26 + 0x1_0000_0000,
    ensures
        spec_catalog_kind(j1) != spec_catalog_kind(j2),
{
}

/// Distinct catalog positions hold kinds with distinct file names.
pub proof fn lemma_catalog_names_distinct(j1: int, j2: int)
    requires
        0 <= j1 < j2,
        j2 < 26 + 0x1_0000_0000,
    ensures
        spec_kind_name(spec_catalog_kind(j1)) != spec_kind_name(spec_catalog_kind(j2)),
{
    lemma_catalog_kind_injective(j1, j2);
    lemma_kind_name_injective(spec_catalog_kind(j1), spec_catalog_kind(j2));
}

/// The fixed factor a raw reading of each kind is scaled by before it is
/// rendered: temperatures arrive in whole degrees and are published in
/// millidegrees, power values arrive in milliwatts and are published in
/// microwatts; everything else passes through.
pub open spec fn spec_scale_of(k: SensorKind) -> int {
    match k {
        SensorKind::EnforcedPowerLimit => 1000,
        SensorKind::PowerUsage => 1000,
        SensorKind::Temperature => 1000,
        SensorKind::TemperatureThreshold => 1000,
        _ => 1,
    }
}

/// Renders one raw numeric reading of a kind as its canonical file content:
/// the decimal numeral of the scaled value.
pub fn render_reading(kind: SensorKind, raw: u64) -> (r: Vec<u8>)
    requires
        raw * spec_scale_of(kind) <= u64::MAX,
    ensures
        r@ == crate::text::spec_dec_bytes((raw * spec_scale_of(kind)) as nat),
        crate::text::is_dec_numeral(r@),
{
    let scale: u64 = match kind {
        SensorKind::EnforcedPowerLimit => 1000,
        SensorKind::PowerUsage => 1000,
        SensorKind::Temperature => 1000,
        SensorKind::TemperatureThreshold => 1000,
        _ => 1,
    };
    crate::text::u64_to_dec_bytes(raw * scale)
}

/// The shape every enumerated catalog has: empty (the device could not be
/// queried), or the 26 fixed kinds followed by one `FanSpeed` entry per fan.
pub open spec fn catalog_shaped(cat: Seq<SensorKind>) -> bool {
    &&& cat.len() == 0 || cat.len() >= 26
    &&& cat.len() < 26 + 0x1_0000_0000
    &&& forall|j: int| 0 <= j < cat.len() ==> #[trigger] cat[j] == spec_catalog_kind(j)
}

impl Sensor {
    /// Pairs a device ordinal with a sensor kind.
    pub fn new(device_index: u32, kind: SensorKind) -> (r: Sensor)
        ensures
            r == (Sensor { device_index, kind }),
    {
        Sensor { device_index, kind }
    }

    /// The catalog of a device that reports `num_fans` fans: the 26 fixed
    /// kinds once each, in the fixed order, followed by one `FanSpeed` entry
    /// per fan in increasing fan order — exactly `26 + num_fans` sensors of
    /// this device, no two sharing a file name.
    pub fn catalog_with_fans(device_index: u32, num_fans: u32) -> (r: Vec<Sensor>)
        ensures
            r@.len() == 26 + num_fans as int,
            forall|j: int|
                0 <= j < r@.len() ==> (#[trigger] r@[j]).device_index == device_index && r@[j].kind
                    == spec_catalog_kind(j),
            forall|j1: int, j2: int|
                0 <= j1 < j2 < r@.len() ==> spec_kind_name((#[trigger] r@[j1]).kind)
                    != spec_kind_name((#[trigger] r@[j2]).kind),
    {
        let mut all: Vec<Sensor> = Vec::new();
        all.push(Sensor::new(device_index, SensorKind::Bar1MemoryFree));
        all.push(Sensor::new(device_index, SensorKind::Bar1MemoryTotal));
        all.push(Sensor::new(device_index, SensorKind::Bar1MemoryUsed));
        all.push(Sensor::new(device_index, SensorKind::ClockGraphics));
        all.push(Sensor::new(device_index, SensorKind::ClockMemory));
        all.push(Sensor::new(device_index, SensorKind::ClockStreamingMultiprocessor));
        all.push(Sensor::new(device_index, SensorKind::ClockVideo));
        all.push(Sensor::new(device_index, SensorKind::DecoderUtilization));
        all.push(Sensor::new(device_index, SensorKind::DecoderUtilizationSamplingPeriod));
        all.push(Sensor::new(device_index, SensorKind::EncoderUtilization));
        all.push(Sensor::new(device_index, SensorKind::EncoderUtilizationSamplingPeriod));
        all.push(Sensor::new(device_index, SensorKind::EnforcedPowerLimit));
        all.push(Sensor::new(device_index, SensorKind::MemoryFree));
        all.push(Sensor::new(device_index, SensorKind::MemoryTotal));
        all.push(Sensor::new(device_index, SensorKind::MemoryUsed));
        all.push(Sensor::new(device_index, SensorKind::Name));
        all.push(Sensor::new(device_index, SensorKind::PcieThroughputReceive));
        all.push(Sensor::new(device_index, SensorKind::PcieThroughputSend));
        all.push(Sensor::new(device_index, SensorKind::PerformanceState));
        all.push(Sensor::new(device_index, SensorKind::PowerSource));
        all.push(Sensor::new(device_index, SensorKind::PowerUsage));
        all.push(Sensor::new(device_index, SensorKind::Temperature));
        all.push(Sensor::new(device_index, SensorKind::TemperatureThreshold));
        all.push(Sensor::new(device_index, SensorKind::TotalEnergyConsumption));
        all.push(Sensor::new(device_index, SensorKind::UtilizationRateGpu));
        all.push(Sensor::new(device_index, SensorKind::UtilizationRateMemory));
        proof {
            assert forall|j: int| 0 <= j < 26 implies (#[trigger] all@[j]).device_index
                == device_index && all@[j].kind == spec_catalog_kind(j) by {
            }
        }

        let mut fan: u32 = 0;
        while fan < num_fans
            invariant
                fan <= num_fans,
                all@.len() == 26 + fan,
                forall|j: int|
                    0 <= j < all@.len() ==> (#[trigger] all@[j]).device_index == device_index
                        && all@[j].kind == spec_catalog_kind(j),
            decreases num_fans - fan,
        {
            all.push(Sensor::new(device_index, SensorKind::FanSpeed(fan)));
            fan = fan + 1;
        }
        proof {
            assert forall|j1: int, j2: int| 0 <= j1 < j2 < all@.len() implies spec_kind_name(
                (#[trigger] all@[j1]).kind,
            ) != spec_kind_name((#[trigger] all@[j2]).kind) by {
                lemma_catalog_names_distinct(j1, j2);
            }
        }
        all
    }

    /// The full catalog of one device: queries the device's fan count and
    /// builds the catalog for it with `catalog_with_fans`, so the result
    /// holds `26 + F` sensors for the `F` fans the hardware reported. A
    /// device that cannot be queried at all yields an empty catalog, so one
    /// bad device never aborts a rebuild.
    pub fn create_all(nvml: &Nvml, device_index: u32) -> (r: Vec<Sensor>)
        ensures
            r@.len() == 0 || r@.len() >= 26,
            r@.len() < 26 + 0x1_0000_0000,
            forall|j: int|
                0 <= j < r@.len() ==> (#[trigger] r@[j]).device_index == device_index && r@[j].kind
                    == spec_catalog_kind(j),
            forall|j1: int, j2: int|
                0 <= j1 < j2 < r@.len() ==> spec_kind_name((#[trigger] r@[j1]).kind)
                    != spec_kind_name((#[trigger] r@[j2]).kind),
    {
        let device = match crate::nvml_api::device_by_index(nvml, device_index) {
            Ok(d) => d,
            Err(_) => {
                return Vec::new();
            },
        };
        let num_fans = match crate::nvml_api::num_fans(&device) {
            Ok(n) => n,
            Err(_) => 0,
        };
        Sensor::catalog_with_fans(device_index, num_fans)
    }

    /// Samples this sensor once: one hardware query, scaled and rendered as
    /// decimal text (the device name passes through as its bytes). What the
    /// hardware answers is out of the library's hands; whatever comes back,
    /// a numeric kind yields a well-formed decimal numeral.
    pub fn get_value(&self, nvml: &Nvml) -> (r: Result<Vec<u8>, SampleError>)
        ensures
            match r {
                Ok(v) => !(self.kind matches SensorKind::Name)
                    ==> crate::text::is_dec_numeral(v@),
                Err(_) => true,
            },
    {
        let device = match crate::nvml_api::device_by_index(nvml, self.device_index) {
            Ok(d) => d,
            Err(e) => {
                return Err(e);
            },
        };

        match self.kind {
            SensorKind::Bar1MemoryFree => match crate::nvml_api::bar1_memory_info(&device) {
                Ok((free, _, _)) => Ok(render_reading(self.kind, free)),
                Err(e) => Err(e),
            },
            SensorKind::Bar1MemoryTotal => match crate::nvml_api::bar1_memory_info(&device) {
                Ok((_, total, _)) => Ok(render_reading(self.kind, total)),
                Err(e) => Err(e),
            },
            SensorKind::Bar1MemoryUsed => match crate::nvml_api::bar1_memory_info(&device) {
                Ok((_, _, used)) => Ok(render_reading(self.kind, used)),
                Err(e) => Err(e),
            },
            SensorKind::ClockGraphics => match crate::nvml_api::clock_graphics(&device) {
                Ok(v) => Ok(render_reading(self.kind, v as u64)),
                Err(e) => Err(e),
            },
            SensorKind::ClockMemory => match crate::nvml_api::clock_memory(&device) {
                Ok(v) => Ok(render_reading(self.kind, v as u64)),
                Err(e) => Err(e),
            },
            SensorKind::ClockStreamingMultiprocessor => match crate::nvml_api::clock_sm(&device) {
                Ok(v) => Ok(render_reading(self.kind, v as u64)),
                Err(e) => Err(e),
            },
            SensorKind::ClockVideo => match crate::nvml_api::clock_video(&device) {
                Ok(v) => Ok(render_reading(self.kind, v as u64)),
                Err(e) => Err(e),
            },
            SensorKind::DecoderUtilization => match crate::nvml_api::decoder_utilization(&device) {
                Ok((utilization, _)) => Ok(render_reading(self.kind, utilization as u64)),
                Err(e) => Err(e),
            },
            SensorKind::DecoderUtilizationSamplingPeriod => match crate::nvml_api::decoder_utilization(
                &device,
            ) {
                Ok((_, sampling_period)) => Ok(render_reading(self.kind, sampling_period as u64)),
                Err(e) => Err(e),
            },
            SensorKind::EncoderUtilization => match crate::nvml_api::encoder_utilization(&device) {
                Ok((utilization, _)) => Ok(render_reading(self.kind, utilization as u64)),
                Err(e) => Err(e),
            },
            SensorKind::EncoderUtilizationSamplingPeriod => match crate::nvml_api::encoder_utilization(
                &device,
            ) {
                Ok((_, sampling_period)) => Ok(render_reading(self.kind, sampling_period as u64)),
                Err(e) => Err(e),
            },
            SensorKind::EnforcedPowerLimit => match crate::nvml_api::enforced_power_limit(&device) {
                Ok(v) => Ok(render_reading(self.kind, v as u64)),
                Err(e) => Err(e),
            },
            SensorKind::FanSpeed(idx) => match crate::nvml_api::fan_speed(&device, idx) {
                Ok(v) => Ok(render_reading(self.kind, v as u64)),
                Err(e) => Err(e),
            },
            SensorKind::MemoryFree => match crate::nvml_api::memory_info(&device) {
                Ok((free, _, _)) => Ok(render_reading(self.kind, free)),
                Err(e) => Err(e),
            },
            SensorKind::MemoryTotal => match crate::nvml_api::memory_info(&device) {
                Ok((_, total, _)) => Ok(render_reading(self.kind, total)),
                Err(e) => Err(e),
            },
            SensorKind::MemoryUsed => match crate::nvml_api::memory_info(&device) {
                Ok((_, _, used)) => Ok(render_reading(self.kind, used)),
                Err(e) => Err(e),
            },
            SensorKind::Name => crate::nvml_api::name_bytes(&device),
            SensorKind::PcieThroughputReceive => match crate::nvml_api::pcie_throughput_receive(
                &device,
            ) {
                Ok(v) => Ok(render_reading(self.kind, v as u64)),
                Err(e) => Err(e),
            },
            SensorKind::PcieThroughputSend => match crate::nvml_api::pcie_throughput_send(&device) {
                Ok(v) => Ok(render_reading(self.kind, v as u64)),
                Err(e) => Err(e),
            },
            SensorKind::PerformanceState => match crate::nvml_api::performance_state_code(&device) {
                Ok(v) => Ok(render_reading(self.kind, v as u64)),
                Err(e) => Err(e),
            },
            SensorKind::PowerSource => match crate::nvml_api::power_source_code(&device) {
                Ok(v) => Ok(render_reading(self.kind, v as u64)),
                Err(e) => Err(e),
            },
            SensorKind::PowerUsage => match crate::nvml_api::power_usage(&device) {
                Ok(v) => Ok(render_reading(self.kind, v as u64)),
                Err(e) => Err(e),
            },
            SensorKind::Temperature => match crate::nvml_api::gpu_temperature(&device) {
                Ok(v) => Ok(render_reading(self.kind, v as u64)),
                Err(e) => Err(e),
            },
            SensorKind::TemperatureThreshold => match crate::nvml_api::gpu_max_temperature_threshold(
                &device,
            ) {
                Ok(v) => Ok(render_reading(self.kind, v as u64)),
                Err(e) => Err(e),
            },
            SensorKind::TotalEnergyConsumption => match crate::nvml_api::total_energy_consumption(
                &device,
            ) {
                Ok(v) => Ok(render_reading(self.kind, v)),
                Err(e) => Err(e),
            },
            SensorKind::UtilizationRateGpu => match crate::nvml_api::utilization_rates(&device) {
                Ok((gpu, _)) => Ok(render_reading(self.kind, gpu as u64)),
                Err(e) => Err(e),
            },
            SensorKind::UtilizationRateMemory => match crate::nvml_api::utilization_rates(&device) {
                Ok((_, memory)) => Ok(render_reading(self.kind, memory as u64)),
                Err(e) => Err(e),
            },
        }
    }
}

} // verus!
