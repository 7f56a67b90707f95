//! Aggregate disk capacity over all mounted disks.

use crate::provider::{disk_spaces, disk_spaces_of};
use crate::units::{gigabytes_of, to_gigabytes, Percentage, BYTES_PER_GB};
use sysinfo::Disks;
use vstd::prelude::*;

verus! {

/// The capacity of one mounted disk, in bytes.
#[derive(Clone, Copy, Debug, PartialEq, Eq)]
pub struct DiskSpace {
    pub total: u64,
    pub available: u64,
}

/// Disk capacity of the host in whole gigabytes, and the share of it in use.
#[derive(Clone, Copy, Debug, PartialEq, Eq)]
pub struct DiskMetrics {
    pub total_gb: u64,
    pub used_gb: u64,
    pub free_gb: u64,
    pub percent: Percentage,
}

/// The total space of all the disks together, in bytes.
pub open spec fn total_space(disks: Seq<DiskSpace>) -> nat
    decreases disks.len(),
{
    if disks.len() == 0 {
        0
    } else {
        total_space(disks.drop_last()) + disks.last().total as nat
    }
}

/// The available space of all the disks together, in bytes.
pub open spec fn available_space(disks: Seq<DiskSpace>) -> nat
    decreases disks.len(),
{
    if disks.len() == 0 {
        0
    } else {
        available_space(disks.drop_last()) + disks.last().available as nat
    }
}

/// The bytes in use: what is not available, and 0 where more is reported as
/// available than there is in total.
pub open spec fn used_bytes(total: u64, available: u64) -> u64 {
    if available > total {
        0
    } else {
        (total - available) as u64
    }
}

/// The metrics of a host whose disks sum up to `total` and `available` bytes.
pub open spec fn disk_metrics_of(total: u64, available: u64) -> DiskMetrics {
    DiskMetrics {
        total_gb: gigabytes_of(total),
        used_gb: gigabytes_of(used_bytes(total, available)),
        free_gb: gigabytes_of(available),
        percent: Percentage::guarded_of(used_bytes(total, available), total),
    }
}

/// The metrics of a list of disks, where both sums fit the machine's widest
/// unsigned count of bytes.
pub open spec fn aggregate_of(disks: Seq<DiskSpace>) -> Option<DiskMetrics> {
    if total_space(disks) <= u64::MAX && available_space(disks) <= u64::MAX {
        Some(disk_metrics_of(total_space(disks) as u64, available_space(disks) as u64))
    } else {
        None
    }
}

/// Computes the metrics from the two sums over all disks.
///
/// The percentage is guarded: it is 0 on a host without disk space, and
/// always a number from 0 to 100.
pub fn disk_metrics(total: u64, available: u64) -> (m: DiskMetrics)
    ensures
        m == disk_metrics_of(total, available),
        m.percent.in_range(),
        total == 0 ==> m.percent == Percentage::Zero,
        total > 0 ==> m.percent == (Percentage::Ratio {
            part: used_bytes(total, available),
            whole: total,
        }),
{
    let used: u64 = total.saturating_sub(available);
    DiskMetrics {
        total_gb: to_gigabytes(total),
        used_gb: to_gigabytes(used),
        free_gb: to_gigabytes(available),
        percent: Percentage::guarded(used, total),
    }
}

/// Sums the total and the available space over all disks, in this order.
/// There is no result where one of the sums does not fit.
pub fn sum_disk_space(disks: &Vec<DiskSpace>) -> (sums: Option<(u64, u64)>)
    ensures
        match sums {
            Some((total, available)) => total == total_space(disks@) && available
                == available_space(disks@),
            None => total_space(disks@) > u64::MAX || available_space(disks@) > u64::MAX,
        },
{
    let mut total: u64 = 0;
    let mut available: u64 = 0;
    let mut i: usize = 0;
    while i < disks.len()
        invariant
            i <= disks.len(),
            total == total_space(disks@.take(i as int)),
            available == available_space(disks@.take(i as int)),
        decreases disks.len() - i,
    {
        proof {
            assert(disks@.take(i + 1).drop_last() == disks@.take(i as int));
            lemma_sums_grow(disks@, i + 1);
        }
        let next_total = total.checked_add(disks[i].total);
        let next_available = available.checked_add(disks[i].available);
        match (next_total, next_available) {
            (Some(t), Some(a)) => {
                total = t;
                available = a;
            },
            _ => {
                return None;
            },
        }
        i += 1;
    }
    proof {
        assert(disks@.take(i as int) == disks@);
    }
    Some((total, available))
}

/// Computes the metrics of a list of disks.
pub fn aggregate_disks(disks: &Vec<DiskSpace>) -> (m: Option<DiskMetrics>)
    ensures
        m == aggregate_of(disks@),
{
    match sum_disk_space(disks) {
        Some((total, available)) => Some(disk_metrics(total, available)),
        None => None,
    }
}

/// Reads the capacities of the disks in the provider's list and computes
/// their metrics.
pub fn get_disk_metrics(disks: &Disks) -> (m: Option<DiskMetrics>)
    ensures
        m == aggregate_of(disk_spaces_of(*disks)),
{
    let spaces = disk_spaces(disks);
    aggregate_disks(&spaces)
}

/// The sums over the first `n` disks are no more than the sums over all.
pub proof fn lemma_sums_grow(disks: Seq<DiskSpace>, n: int)
    requires
        0 <= n <= disks.len(),
    ensures
        total_space(disks.take(n)) <= total_space(disks),
        available_space(disks.take(n)) <= available_space(disks),
    decreases disks.len(),
{
    if n == disks.len() {
        assert(disks.take(n) == disks);
    } else {
        assert(disks.drop_last().take(n) == disks.take(n));
        lemma_sums_grow(disks.drop_last(), n);
    }
}

/// Used and available bytes add up to the total wherever no more is available
/// than there is in total.
pub proof fn lemma_used_and_available_bytes(total: u64, available: u64)
    requires
        available <= total,
    ensures
        used_bytes(total, available) + available == total,
{
}

/// In whole gigabytes used and free space add up to the total exactly when
/// the two remainders that the rounding drops stay under one gigabyte
/// together; otherwise they add up to one gigabyte less.
pub proof fn lemma_used_and_free_gigabytes(total: u64, available: u64)
    requires
        available <= total,
    ensures
        ({
            let m = disk_metrics_of(total, available);
            let dropped = used_bytes(total, available) % BYTES_PER_GB + available % BYTES_PER_GB;
            &&& dropped < BYTES_PER_GB ==> m.used_gb + m.free_gb == m.total_gb
            &&& dropped >= BYTES_PER_GB ==> m.used_gb + m.free_gb + 1 == m.total_gb
        }),
{
}

/// A host whose disks report no space at all has a disk percentage of
/// exactly 0.
pub proof fn lemma_no_disk_space(disks: Seq<DiskSpace>)
    requires
        total_space(disks) == 0,
        available_space(disks) <= u64::MAX,
    ensures
        aggregate_of(disks) is Some,
        aggregate_of(disks).unwrap().percent == Percentage::Zero,
        aggregate_of(disks).unwrap().total_gb == 0,
        aggregate_of(disks).unwrap().used_gb == 0,
{
}

/// The disk percentage is a number from 0 to 100 for every list of disks that
/// has metrics.
pub proof fn lemma_disk_percent_in_range(disks: Seq<DiskSpace>)
    requires
        aggregate_of(disks) is Some,
    ensures
        aggregate_of(disks).unwrap().percent.in_range(),
{
}

} // verus!
