//! Point-in-time resource snapshots: processor load, memory, disk capacity and
//! the processes that use the processor most, computed from the readings of a
//! telemetry provider.
//!
//! The library computes and does not read the host. A caller refreshes the
//! provider's state, waits `CPU_SETTLE_MILLIS`, refreshes the processors once
//! more and hands the state over; `get_all_metrics` turns it into a
//! `SystemMetrics`. Each part of a snapshot can also be computed alone, from
//! the provider's state or from plain numbers.
//!
//! Readings that the provider reports as binary floating-point values are
//! carried by their bit patterns, and a percentage is kept as the two counts
//! whose quotient it is, so that every statement about a snapshot is one
//! about integers.

pub mod boundary;
pub mod cpu;
pub mod disk;
pub mod ieee;
pub mod memory;
pub mod process;
pub mod provider;
pub mod ranking;
pub mod snapshot;
pub mod sort;
pub mod units;

pub use boundary::{limit_from_argument, parse_count, payload_or_empty, DEFAULT_LIMIT};
pub use cpu::{cpu_metrics, get_cpu_metrics, CpuMetrics, LoadAverage};
pub use disk::{
    aggregate_disks, disk_metrics, get_disk_metrics, sum_disk_space, DiskMetrics, DiskSpace,
};
pub use ieee::{Double, Single};
pub use memory::{get_memory_metrics, memory_metrics, MemoryMetrics};
pub use process::{can_rank, get_top_processes, rank_processes, ProcessInfo, ProcessSample};
pub use sort::{merge_ranked, sort_by_usage};
pub use snapshot::{get_all_metrics, SystemMetrics, CPU_SETTLE_MILLIS};
pub use sysinfo::{Disks, System};
pub use units::{to_gigabytes, to_megabytes, Percentage, BYTES_PER_GB, BYTES_PER_MB};
