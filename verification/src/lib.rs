//! A read-only virtual filesystem core that presents live hardware telemetry
//! (GPU temperature, clocks, memory, power, fan speeds, ...) as a file tree:
//! one directory per device, one regular file per sensor.
//!
//! The verified library holds the namespace store (inode table, identifier
//! allocation, lookup/listing/attribute queries), the open-file registry
//! (values sampled once at open, served by offset across partial reads), the
//! refresh policy (full rebuild whenever the device count drifts), and the
//! sensor catalog. Hardware readings come from the NVIDIA management library
//! through a small set of trusted wrappers; everything computed from those
//! readings is verified. The kernel-side filesystem transport lives outside
//! the library and drives these handlers with plain values.

pub mod text;
pub mod sensors;
pub mod fs_core;
pub mod nvml_api;
pub mod adapter;
pub mod laws;
