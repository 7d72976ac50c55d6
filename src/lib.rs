//! Per-process telemetry collection for Linux hosts: parsers for the process
//! filesystem's text files, cgroup classification, DRM fdinfo accounting and
//! the aggregation of GPU and NPU usage per accelerator slot.

pub mod amd;
pub mod cgroup;
pub mod fdinfo;
pub mod niceness;
pub mod nvidia;
pub mod pci_slot;
pub mod process;
pub mod procfs;
pub mod slot_map;
pub mod text;
pub mod usage;

pub use amd::AmdGpu;
pub use niceness::Niceness;
pub use process::{unix_as_millis, ProcessData};
pub use procfs::Containerization;
pub use usage::{GpuUsageStats, NpuUsageStats};
