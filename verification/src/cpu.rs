//! Processor usage, the number of logical cores and the load averages.

use crate::ieee::{Double, Single};
use crate::provider::{core_count, core_count_of, global_cpu_usage, global_cpu_usage_of};
use sysinfo::System;
use vstd::prelude::*;

verus! {

/// The average load of the host over the last minute, the last five and the
/// last fifteen minutes.
#[derive(Clone, Copy, Debug, PartialEq, Eq)]
pub struct LoadAverage {
    pub one: Double,
    pub five: Double,
    pub fifteen: Double,
}

/// Usage of all processors together in percent, the number of logical cores,
/// and the three load averages.
#[derive(Clone, Copy, Debug, PartialEq, Eq)]
pub struct CpuMetrics {
    pub usage_percent: Single,
    pub cores_logical: usize,
    pub load_avg_1: Double,
    pub load_avg_5: Double,
    pub load_avg_15: Double,
}

/// The metrics of three readings, each passed on as it is.
pub open spec fn cpu_metrics_of(usage: Single, cores: usize, load: LoadAverage) -> CpuMetrics {
    CpuMetrics {
        usage_percent: usage,
        cores_logical: cores,
        load_avg_1: load.one,
        load_avg_5: load.five,
        load_avg_15: load.fifteen,
    }
}

/// The metrics of a provider state and the load averages of the host.
pub open spec fn cpu_of(sys: System, load: LoadAverage) -> CpuMetrics {
    cpu_metrics_of(Single { bits: global_cpu_usage_of(sys) }, core_count_of(sys), load)
}

/// Puts the three readings together; nothing is derived from them.
pub fn cpu_metrics(usage: Single, cores: usize, load: LoadAverage) -> (m: CpuMetrics)
    ensures
        m == cpu_metrics_of(usage, cores, load),
{
    CpuMetrics {
        usage_percent: usage,
        cores_logical: cores,
        load_avg_1: load.one,
        load_avg_5: load.five,
        load_avg_15: load.fifteen,
    }
}

/// Reads processor usage and the number of logical cores from the provider
/// state and puts them together with the load averages, which belong to the
/// host and to no state and so are handed in.
pub fn get_cpu_metrics(sys: &System, load: LoadAverage) -> (m: CpuMetrics)
    ensures
        m == cpu_of(*sys, load),
{
    cpu_metrics(global_cpu_usage(sys), core_count(sys), load)
}

} // verus!
