//! Trusted access to the telemetry provider.
//!
//! The provider is the `sysinfo` crate. A `System` holds what the last
//! refresh read of processors, memory and processes, a `Disks` the list of
//! mounted disks. Both are opaque here. What they hold has a name, and each
//! function below calls one accessor and says that it hands out what the
//! state holds. None of them refreshes anything or reads the host: that is
//! done before the state gets here.
//!
//! Nothing in this file is proved. Everything else in the library is proved
//! from what this file states.

use crate::disk::DiskSpace;
use crate::ieee::Single;
use crate::process::ProcessSample;
use sysinfo::{Disks, System};
use vstd::multiset::Multiset;
use vstd::prelude::*;

verus! {

/// The provider's record of processors, memory and processes.
#[verifier::external_type_specification]
#[verifier::external_body]
pub struct ExSystem(sysinfo::System);

/// The provider's list of mounted disks.
#[verifier::external_type_specification]
#[verifier::external_body]
pub struct ExDisks(sysinfo::Disks);

/// One disk of the provider's list. No value of it is held here; the list
/// type cannot be declared without it.
#[verifier::external_type_specification]
#[verifier::external_body]
pub struct ExDisk(sysinfo::Disk);

/// The size of main memory in bytes, as the state holds it.
pub uninterp spec fn total_memory_of(sys: System) -> u64;

/// The bytes of main memory that are available for use, as the state holds
/// them.
pub uninterp spec fn available_memory_of(sys: System) -> u64;

/// The bytes of main memory that the provider counts as used.
pub uninterp spec fn used_memory_of(sys: System) -> u64;

/// The number of logical processors in the state's list.
pub uninterp spec fn core_count_of(sys: System) -> usize;

/// The bit pattern of the usage, in percent, of all processors together.
pub uninterp spec fn global_cpu_usage_of(sys: System) -> u32;

/// The entries of the state's process table. The table has no order of its
/// own, so this is a multiset.
pub uninterp spec fn process_table_of(sys: System) -> Multiset<ProcessSample>;

/// The capacities of the disks in the list, in the list's order.
pub uninterp spec fn disk_spaces_of(disks: Disks) -> Seq<DiskSpace>;

/// Calls `System::total_memory`, which hands out the byte count that the last
/// refresh stored.
#[verifier::external_body]
pub(crate) fn total_memory(sys: &System) -> (bytes: u64)
    ensures
        bytes == total_memory_of(*sys),
{
    sys.total_memory()
}

/// Calls `System::available_memory`, which hands out the byte count that the
/// last refresh stored.
#[verifier::external_body]
pub(crate) fn available_memory(sys: &System) -> (bytes: u64)
    ensures
        bytes == available_memory_of(*sys),
{
    sys.available_memory()
}

/// Calls `System::used_memory`. On some hosts the provider computes it as
/// the total less the available memory, a subtraction that must not go below
/// zero: the call is made only where no more is available than there is in
/// total.
#[verifier::external_body]
pub(crate) fn used_memory(sys: &System) -> (bytes: u64)
    requires
        available_memory_of(*sys) <= total_memory_of(*sys),
    ensures
        bytes == used_memory_of(*sys),
{
    sys.used_memory()
}

/// Calls `System::cpus` and hands out the length of the list of logical
/// processors.
#[verifier::external_body]
pub(crate) fn core_count(sys: &System) -> (cores: usize)
    ensures
        cores == core_count_of(*sys),
{
    sys.cpus().len()
}

/// Calls `System::global_cpu_info` and `Cpu::cpu_usage` on what it hands out:
/// the usage of all processors together, in percent, as a bit pattern.
#[verifier::external_body]
pub(crate) fn global_cpu_usage(sys: &System) -> (usage: Single)
    ensures
        usage.bits == global_cpu_usage_of(*sys),
{
    Single { bits: sys.global_cpu_info().cpu_usage().to_bits() }
}

/// Walks the table that `System::processes` hands out and reads of each
/// entry, by `Pid::as_u32`, `Process::name`, `Process::cpu_usage` and
/// `Process::memory`, its id, name, processor usage and resident memory.
///
/// Each entry of the table comes once. The order of the walk is that of a
/// hash map and says nothing, so the contract speaks of the entries only.
#[verifier::external_body]
pub(crate) fn process_samples(sys: &System) -> (samples: Vec<ProcessSample>)
    ensures
        samples@.to_multiset() == process_table_of(*sys),
{
    sys.processes().iter().map(
        |(pid, process)|
            ProcessSample {
                pid: pid.as_u32(),
                name: process.name().to_string(),
                cpu_usage: Single { bits: process.cpu_usage().to_bits() },
                memory: process.memory(),
            },
    ).collect()
}

/// Walks the list that `Disks::list` hands out and reads of each disk, by
/// `Disk::total_space` and `Disk::available_space`, its two byte counts.
#[verifier::external_body]
pub(crate) fn disk_spaces(disks: &Disks) -> (spaces: Vec<DiskSpace>)
    ensures
        spaces@ == disk_spaces_of(*disks),
{
    disks.list().iter().map(
        |disk| DiskSpace { total: disk.total_space(), available: disk.available_space() },
    ).collect()
}

} // verus!
