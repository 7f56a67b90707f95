//! One snapshot of the host: processor, memory, disks and top processes.

use crate::cpu::{cpu_of, get_cpu_metrics, CpuMetrics, LoadAverage};
use crate::disk::{aggregate_of, get_disk_metrics, DiskMetrics};
use crate::memory::{get_memory_metrics, memory_of, MemoryMetrics};
use crate::process::{get_top_processes, is_top_of_table, table_rankable, ProcessInfo};
use crate::provider::{disk_spaces_of, process_table_of};
use crate::ranking::sorted_desc;
use sysinfo::{Disks, System};
use vstd::prelude::*;

verus! {

/// The time, in milliseconds, that has to pass between the two refreshes of a
/// provider state from which processor usage is computed. Usage is the
/// difference of two readings, so a state that was refreshed once, or twice
/// in quick succession, holds no meaningful usage.
pub const CPU_SETTLE_MILLIS: u64 = 200;

/// One snapshot of the host. The four parts are read one after the other and
/// need not belong to the same instant.
#[derive(Clone, Debug, PartialEq, Eq)]
pub struct SystemMetrics {
    pub cpu: CpuMetrics,
    pub memory: MemoryMetrics,
    pub disk: DiskMetrics,
    pub top_processes: Vec<ProcessInfo>,
}

/// Whether every part of a snapshot can be computed from the two provider
/// states.
pub open spec fn can_snapshot(sys: System, disks: Disks) -> bool {
    &&& memory_of(sys) is Some
    &&& aggregate_of(disk_spaces_of(disks)) is Some
    &&& table_rankable(process_table_of(sys))
}

/// Whether `m` is a snapshot of the two provider states and the load
/// averages, with at most `limit` processes.
pub open spec fn is_snapshot_of(
    m: SystemMetrics,
    sys: System,
    disks: Disks,
    load: LoadAverage,
    limit: nat,
) -> bool {
    &&& m.cpu == cpu_of(sys, load)
    &&& Some(m.memory) == memory_of(sys)
    &&& Some(m.disk) == aggregate_of(disk_spaces_of(disks))
    &&& is_top_of_table(m.top_processes@, process_table_of(sys), limit)
}

/// Computes a snapshot from a refreshed provider state, the provider's disk
/// list and the load averages of the host.
///
/// The snapshot is whole or there is none: where one part cannot be computed
/// the others are not handed out. With a `limit` of 0 the list of processes
/// is empty and the other parts are as with any other limit.
pub fn get_all_metrics(sys: &System, disks: &Disks, load: LoadAverage, limit: usize) -> (snapshot:
    Option<SystemMetrics>)
    ensures
        snapshot is Some <==> can_snapshot(*sys, *disks),
        snapshot matches Some(m) ==> {
            &&& is_snapshot_of(m, *sys, *disks, load, limit as nat)
            &&& m.top_processes.len() == if limit < process_table_of(*sys).len() {
                limit as nat
            } else {
                process_table_of(*sys).len()
            }
            &&& sorted_desc(m.top_processes@)
            &&& m.disk.percent.in_range()
        },
{
    let cpu = get_cpu_metrics(sys, load);
    let memory = match get_memory_metrics(sys) {
        Some(memory) => memory,
        None => {
            return None;
        },
    };
    let disk = match get_disk_metrics(disks) {
        Some(disk) => disk,
        None => {
            return None;
        },
    };
    let top_processes = match get_top_processes(sys, limit) {
        Some(top) => top,
        None => {
            return None;
        },
    };
    Some(SystemMetrics { cpu, memory, disk, top_processes })
}

} // verus!
