//! Main memory in whole megabytes, and the share of it in use.

use crate::provider::{
    available_memory, available_memory_of, total_memory, total_memory_of, used_memory,
    used_memory_of,
};
use crate::units::{megabytes_of, to_megabytes, Percentage};
use sysinfo::System;
use vstd::prelude::*;

verus! {

/// Main memory of the host in whole megabytes, and the share of it in use.
#[derive(Clone, Copy, Debug, PartialEq, Eq)]
pub struct MemoryMetrics {
    pub total_mb: u64,
    pub used_mb: u64,
    pub available_mb: u64,
    pub percent: Percentage,
}

/// The metrics of three byte counts.
pub open spec fn memory_metrics_of(total: u64, used: u64, available: u64) -> MemoryMetrics {
    MemoryMetrics {
        total_mb: megabytes_of(total),
        used_mb: megabytes_of(used),
        available_mb: megabytes_of(available),
        percent: Percentage::Ratio { part: used, whole: total },
    }
}

/// The metrics of a provider state. There are none where the state holds
/// more available than total memory: the provider cannot say how much is used
/// then.
pub open spec fn memory_of(sys: System) -> Option<MemoryMetrics> {
    if available_memory_of(sys) <= total_memory_of(sys) {
        Some(
            memory_metrics_of(total_memory_of(sys), used_memory_of(sys), available_memory_of(sys)),
        )
    } else {
        None
    }
}

/// Computes the metrics from three byte counts.
///
/// The percentage is the share of `used` in `total` and is not guarded: with
/// a `total` of 0 it is no number. It is a number from 0 to 100 exactly where
/// `total` is above 0 and `used` does not exceed it.
pub fn memory_metrics(total: u64, used: u64, available: u64) -> (m: MemoryMetrics)
    ensures
        m == memory_metrics_of(total, used, available),
        m.percent.is_number() <==> total > 0,
        m.percent.in_range() <==> total > 0 && used <= total,
{
    MemoryMetrics {
        total_mb: to_megabytes(total),
        used_mb: to_megabytes(used),
        available_mb: to_megabytes(available),
        percent: Percentage::of(used, total),
    }
}

/// Reads total, used and available memory from the provider state and
/// computes the metrics.
pub fn get_memory_metrics(sys: &System) -> (m: Option<MemoryMetrics>)
    ensures
        m == memory_of(*sys),
{
    let total = total_memory(sys);
    let available = available_memory(sys);
    if available <= total {
        let used = used_memory(sys);
        Some(memory_metrics(total, used, available))
    } else {
        None
    }
}

} // verus!
