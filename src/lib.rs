//! Telemetry sampling core: turns raw host readings (volumes, network
//! counters, GPU utilisation, CPU load) into one consistent snapshot, and
//! renders that snapshot as a block of the append-only log.

pub mod disk;
pub mod network;
pub mod gpu;
pub mod snapshot;
pub mod log;

pub use disk::{disk_info, disk_usage, volume_percent, VolumeReading};
pub use gpu::{gpu_or_empty, gpu_outcome, gpu_usage, GpuError};
pub use log::{log_block, push_decimal, push_kilo};
pub use network::{bit_rate, network_usage, InterfaceCounters};
pub use snapshot::{aggregate, SystemReadings, TelemetrySnapshot};
