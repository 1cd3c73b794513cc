//! The hardware query boundary: every call into the NVIDIA management
//! library goes through one of the trusted wrappers below. Readings depend on
//! the live hardware, so the wrappers promise nothing about the values they
//! return; everything computed from a reading is verified downstream.

use vstd::prelude::*;
use nvml_wrapper::Device;
use nvml_wrapper::Nvml;
use nvml_wrapper::error::NvmlError;
use nvml_wrapper::enum_wrappers::device::Clock;
use nvml_wrapper::enum_wrappers::device::PcieUtilCounter;
use nvml_wrapper::enum_wrappers::device::TemperatureSensor;
use nvml_wrapper::enum_wrappers::device::TemperatureThreshold;
use crate::sensors::SampleError;

verus! {

#[verifier::external_type_specification]
#[verifier::external_body]
pub struct ExNvml(Nvml);

#[verifier::external_type_specification]
#[verifier::external_body]
pub struct ExDevice<'nvml>(Device<'nvml>);

#[verifier::external_type_specification]
#[verifier::external_body]
pub struct ExNvmlError(NvmlError);

/// Relies on `NvmlError`: `NotSupported` is the one code meaning the device
/// does not implement the queried sensor; every other code is a transient or
/// hardware failure.
#[verifier::external_body]
pub(crate) fn sample_err(e: NvmlError) -> SampleError {
    match e {
        NvmlError::NotSupported => SampleError::Unsupported,
        _ => SampleError::Hardware,
    }
}

/// Relies on `Nvml::device_count`: the number of devices the driver
/// enumerates right now.
#[verifier::external_body]
pub(crate) fn device_count(nvml: &Nvml) -> Result<u32, SampleError> {
    nvml.device_count().map_err(sample_err)
}

/// Relies on `Nvml::device_by_index`: the handle of the device at a
/// zero-based ordinal of the current enumeration.
#[verifier::external_body]
pub(crate) fn device_by_index(nvml: &Nvml, index: u32) -> Result<Device<'_>, SampleError> {
    nvml.device_by_index(index).map_err(sample_err)
}

/// Relies on `Device::num_fans`: how many fans the device has.
#[verifier::external_body]
pub(crate) fn num_fans(device: &Device<'_>) -> Result<u32, SampleError> {
    device.num_fans().map_err(sample_err)
}

/// Relies on `Device::bar1_memory_info`: BAR1 memory in bytes, as
/// (free, total, used).
#[verifier::external_body]
pub(crate) fn bar1_memory_info(device: &Device<'_>) -> Result<(u64, u64, u64), SampleError> {
    device.bar1_memory_info().map(|m| (m.free, m.total, m.used)).map_err(sample_err)
}

/// Relies on `Device::memory_info`: framebuffer memory in bytes, as
/// (free, total, used).
#[verifier::external_body]
pub(crate) fn memory_info(device: &Device<'_>) -> Result<(u64, u64, u64), SampleError> {
    device.memory_info().map(|m| (m.free, m.total, m.used)).map_err(sample_err)
}

/// Relies on `Device::clock_info` with `Clock::Graphics`: the graphics clock
/// in MHz.
#[verifier::external_body]
pub(crate) fn clock_graphics(device: &Device<'_>) -> Result<u32, SampleError> {
    device.clock_info(Clock::Graphics).map_err(sample_err)
}

/// Relies on `Device::clock_info` with `Clock::Memory`: the memory clock in
/// MHz.
#[verifier::external_body]
pub(crate) fn clock_memory(device: &Device<'_>) -> Result<u32, SampleError> {
    device.clock_info(Clock::Memory).map_err(sample_err)
}

/// Relies on `Device::clock_info` with `Clock::SM`: the streaming
/// multiprocessor clock in MHz.
#[verifier::external_body]
pub(crate) fn clock_sm(device: &Device<'_>) -> Result<u32, SampleError> {
    device.clock_info(Clock::SM).map_err(sample_err)
}

/// Relies on `Device::clock_info` with `Clock::Video`: the video clock in
/// MHz.
#[verifier::external_body]
pub(crate) fn clock_video(device: &Device<'_>) -> Result<u32, SampleError> {
    device.clock_info(Clock::Video).map_err(sample_err)
}

/// Relies on `Device::decoder_utilization`: decoder utilization in percent
/// and its sampling period in microseconds.
#[verifier::external_body]
pub(crate) fn decoder_utilization(device: &Device<'_>) -> Result<(u32, u32), SampleError> {
    device.decoder_utilization().map(|u| (u.utilization, u.sampling_period)).map_err(sample_err)
}

/// Relies on `Device::encoder_utilization`: encoder utilization in percent
/// and its sampling period in microseconds.
#[verifier::external_body]
pub(crate) fn encoder_utilization(device: &Device<'_>) -> Result<(u32, u32), SampleError> {
    device.encoder_utilization().map(|u| (u.utilization, u.sampling_period)).map_err(sample_err)
}

/// Relies on `Device::enforced_power_limit`: the enforced power limit in
/// milliwatts.
#[verifier::external_body]
pub(crate) fn enforced_power_limit(device: &Device<'_>) -> Result<u32, SampleError> {
    device.enforced_power_limit().map_err(sample_err)
}

/// Relies on `Device::fan_speed`: the intended speed of one fan, in percent
/// of its maximum.
#[verifier::external_body]
pub(crate) fn fan_speed(device: &Device<'_>, fan_idx: u32) -> Result<u32, SampleError> {
    device.fan_speed(fan_idx).map_err(sample_err)
}

/// Relies on `Device::name`: the product name, handed on as its UTF-8 bytes.
#[verifier::external_body]
pub(crate) fn name_bytes(device: &Device<'_>) -> Result<Vec<u8>, SampleError> {
    device.name().map(|n| n.into_bytes()).map_err(sample_err)
}

/// Relies on `Device::pcie_throughput` with `PcieUtilCounter::Receive`: PCIe
/// receive throughput in KB/s.
#[verifier::external_body]
pub(crate) fn pcie_throughput_receive(device: &Device<'_>) -> Result<u32, SampleError> {
    device.pcie_throughput(PcieUtilCounter::Receive).map_err(sample_err)
}

/// Relies on `Device::pcie_throughput` with `PcieUtilCounter::Send`: PCIe
/// send throughput in KB/s.
#[verifier::external_body]
pub(crate) fn pcie_throughput_send(device: &Device<'_>) -> Result<u32, SampleError> {
    device.pcie_throughput(PcieUtilCounter::Send).map_err(sample_err)
}

/// Relies on `Device::performance_state` and the generated `as_c`
/// conversion: the current performance state as its numeric code.
#[verifier::external_body]
pub(crate) fn performance_state_code(device: &Device<'_>) -> Result<u32, SampleError> {
    device.performance_state().map(|p| p.as_c() as u32).map_err(sample_err)
}

/// Relies on `Device::power_source` and the generated `as_c` conversion: the
/// current power source as its numeric code.
#[verifier::external_body]
pub(crate) fn power_source_code(device: &Device<'_>) -> Result<u32, SampleError> {
    device.power_source().map(|p| p.as_c() as u32).map_err(sample_err)
}

/// Relies on `Device::power_usage`: the device's power draw in milliwatts.
#[verifier::external_body]
pub(crate) fn power_usage(device: &Device<'_>) -> Result<u32, SampleError> {
    device.power_usage().map_err(sample_err)
}

/// Relies on `Device::temperature` with `TemperatureSensor::Gpu`: the die
/// temperature in degrees Celsius.
#[verifier::external_body]
pub(crate) fn gpu_temperature(device: &Device<'_>) -> Result<u32, SampleError> {
    device.temperature(TemperatureSensor::Gpu).map_err(sample_err)
}

/// Relies on `Device::temperature_threshold` with
/// `TemperatureThreshold::GpuMax`: the throttle threshold in degrees
/// Celsius.
#[verifier::external_body]
pub(crate) fn gpu_max_temperature_threshold(device: &Device<'_>) -> Result<u32, SampleError> {
    device.temperature_threshold(TemperatureThreshold::GpuMax).map_err(sample_err)
}

/// Relies on `Device::total_energy_consumption`: energy consumed since the
/// driver was loaded, in millijoules.
#[verifier::external_body]
pub(crate) fn total_energy_consumption(device: &Device<'_>) -> Result<u64, SampleError> {
    device.total_energy_consumption().map_err(sample_err)
}

/// Relies on `Device::utilization_rates`: GPU and memory utilization in
/// percent, as (gpu, memory).
#[verifier::external_body]
pub(crate) fn utilization_rates(device: &Device<'_>) -> Result<(u32, u32), SampleError> {
    device.utilization_rates().map(|u| (u.gpu, u.memory)).map_err(sample_err)
}

} // verus!
