//! The processes that use the processor most.

use crate::ieee::Single;
use crate::provider::{process_samples, process_table_of};
use crate::ranking::{
    lemma_map_keeps_members, lemma_order_decides_ties_only, lemma_ranking_len, lemma_top_of,
    rankable, ranking, ranks_of, sorted_desc, top_of,
};
use crate::sort::sort_by_usage;
use crate::units::{megabytes_of, to_megabytes};
use std::collections::VecDeque;
use sysinfo::System;
use vstd::multiset::Multiset;
use vstd::prelude::*;

verus! {

/// One entry of the provider's process table, as the provider reports it:
/// processor usage in percent of one core, resident memory in bytes.
#[derive(Clone, Debug, PartialEq, Eq)]
pub struct ProcessSample {
    pub pid: u32,
    pub name: String,
    pub cpu_usage: Single,
    pub memory: u64,
}

/// One process of a snapshot. The percentage may exceed 100 on a machine with
/// several cores; memory is in whole megabytes.
#[derive(Clone, Debug, PartialEq, Eq)]
pub struct ProcessInfo {
    pub pid: u32,
    pub name: String,
    pub cpu_percent: Single,
    pub memory_mb: u64,
}

/// The snapshot entry of a table entry.
pub open spec fn info_of(sample: ProcessSample) -> ProcessInfo {
    ProcessInfo {
        pid: sample.pid,
        name: sample.name,
        cpu_percent: sample.cpu_usage,
        memory_mb: megabytes_of(sample.memory),
    }
}

/// The snapshot entries of a listing of the table, in the listing's order.
pub open spec fn infos_of(samples: Seq<ProcessSample>) -> Seq<ProcessInfo> {
    Seq::new(samples.len(), |i: int| info_of(samples[i]))
}

/// Whether the entries of a process table can be ordered by processor usage.
pub open spec fn table_rankable(table: Multiset<ProcessSample>) -> bool {
    table.len() <= 1 || forall|sample: ProcessSample| #[trigger]
        table.contains(sample) ==> !sample.cpu_usage.is_nan()
}

/// Whether `top` is the top list of the table under some order of walking it:
/// the order decides between entries of equal usage, and nothing else.
pub open spec fn is_top_of_table(
    top: Seq<ProcessInfo>,
    table: Multiset<ProcessSample>,
    limit: nat,
) -> bool {
    exists|listing: Seq<ProcessSample>| #[trigger]
        listing.to_multiset() == table && top == top_of(infos_of(listing), limit)
}

impl ProcessSample {
    /// Turns a table entry into a snapshot entry: memory goes from bytes to
    /// whole megabytes, the rest is kept.
    pub fn into_info(self) -> (info: ProcessInfo)
        ensures
            info == info_of(self),
    {
        ProcessInfo {
            pid: self.pid,
            name: self.name,
            cpu_percent: self.cpu_usage,
            memory_mb: to_megabytes(self.memory),
        }
    }
}

/// Tells whether the entries of a listing can be ordered by processor usage.
pub fn can_rank(samples: &Vec<ProcessSample>) -> (yes: bool)
    ensures
        yes == rankable(infos_of(samples@)),
{
    if samples.len() <= 1 {
        return true;
    }
    let mut i: usize = 0;
    while i < samples.len()
        invariant
            1 < samples.len(),
            i <= samples.len(),
            forall|k: int| 0 <= k < i ==> !(#[trigger] infos_of(samples@)[k]).cpu_percent.is_nan(),
        decreases samples.len() - i,
    {
        if !samples[i].cpu_usage.is_comparable() {
            assert(infos_of(samples@)[i as int].cpu_percent.is_nan());
            return false;
        }
        i += 1;
    }
    true
}

/// Ranks the entries of a listing and keeps the first `limit` of them.
///
/// Every entry of the listing becomes a snapshot entry. The entries are put
/// in descending order of processor usage, those of equal usage in the order
/// of the listing, and the list is cut to `limit` entries: a limit of 0 gives
/// an empty list, one above the number of entries gives them all.
///
/// The entries must be such that they can be ordered, which `can_rank` tells.
pub fn rank_processes(samples: Vec<ProcessSample>, limit: usize) -> (top: Vec<ProcessInfo>)
    requires
        rankable(infos_of(samples@)),
    ensures
        top@ == top_of(infos_of(samples@), limit as nat),
        top.len() == if limit < samples.len() {
            limit
        } else {
            samples.len()
        },
        sorted_desc(top@),
{
    let ghost listing = infos_of(samples@);
    let mut entries: VecDeque<ProcessInfo> = VecDeque::new();
    for sample in it: samples
        invariant
            it.seq() == samples@,
            listing == infos_of(samples@),
            entries@ == listing.take(it.index()),
    {
        entries.push_back(sample.into_info());
    }
    proof {
        assert(listing.take(samples@.len() as int) == listing);
        lemma_ranking_len(listing);
        lemma_top_of(listing, limit as nat);
    }
    let mut ranked = sort_by_usage(entries);
    let mut top: Vec<ProcessInfo> = Vec::new();
    while top.len() < limit && ranked.len() > 0
        invariant
            top@ + ranked@ == ranking(listing),
            top.len() <= limit,
        decreases ranked@.len(),
    {
        let ghost rest = ranked@;
        let entry = ranked.pop_front().unwrap();
        top.push(entry);
        assert(top@ + ranked@ == ranking(listing)) by {
            assert(rest == seq![entry] + ranked@);
        }
    }
    proof {
        assert(top@ == ranking(listing).take(top@.len() as int));
    }
    top
}

/// Lists the process table of the provider state, ranks its entries and keeps
/// the first `limit` of them.
///
/// There is no result where the table cannot be ordered. Otherwise the result
/// is the top list of the table's entries, with entries of equal usage in the
/// order in which the table was walked; it has `limit` entries where the
/// table has that many, and all of the table's otherwise.
pub fn get_top_processes(sys: &System, limit: usize) -> (top: Option<Vec<ProcessInfo>>)
    ensures
        top is Some <==> table_rankable(process_table_of(*sys)),
        top matches Some(list) ==> {
            &&& is_top_of_table(list@, process_table_of(*sys), limit as nat)
            &&& list.len() == if limit < process_table_of(*sys).len() {
                limit as nat
            } else {
                process_table_of(*sys).len()
            }
            &&& sorted_desc(list@)
        },
{
    let samples = process_samples(sys);
    proof {
        lemma_listing_rankable(samples@);
        lemma_top_of(infos_of(samples@), limit as nat);
        vstd::seq_lib::to_multiset_len(samples@);
    }
    if can_rank(&samples) {
        Some(rank_processes(samples, limit))
    } else {
        None
    }
}

/// A listing can be ordered exactly where the table that it lists can.
pub proof fn lemma_listing_rankable(listing: Seq<ProcessSample>)
    ensures
        rankable(infos_of(listing)) <==> table_rankable(listing.to_multiset()),
{
    let table = listing.to_multiset();
    vstd::seq_lib::to_multiset_len(listing);
    if listing.len() > 1 {
        if rankable(infos_of(listing)) {
            assert forall|sample: ProcessSample| #[trigger]
                table.contains(sample) implies !sample.cpu_usage.is_nan() by {
                vstd::seq_lib::to_multiset_contains(listing, sample);
                let i = choose|i: int| 0 <= i < listing.len() && listing[i] == sample;
                assert(infos_of(listing)[i].cpu_percent == sample.cpu_usage);
            }
        }
        if table_rankable(table) {
            assert forall|i: int| 0 <= i < listing.len() implies !(#[trigger] infos_of(
                listing,
            )[i]).cpu_percent.is_nan() by {
                vstd::seq_lib::to_multiset_contains(listing, listing[i]);
                assert(listing.contains(listing[i]));
                assert(table.contains(listing[i]));
            }
        }
    }
}

/// Whatever the order in which a table is walked, its top list has the same
/// processor usage at every place: two top lists of one table differ in the
/// order of entries of equal usage at most.
pub proof fn lemma_tops_of_table_agree(
    first: Seq<ProcessInfo>,
    second: Seq<ProcessInfo>,
    table: Multiset<ProcessSample>,
    limit: nat,
)
    requires
        is_top_of_table(first, table, limit),
        is_top_of_table(second, table, limit),
    ensures
        ranks_of(first) == ranks_of(second),
{
    let a = choose|a: Seq<ProcessSample>| #[trigger]
        a.to_multiset() == table && first == top_of(infos_of(a), limit);
    let b = choose|b: Seq<ProcessSample>| #[trigger]
        b.to_multiset() == table && second == top_of(infos_of(b), limit);
    let info = |sample: ProcessSample| info_of(sample);
    assert(infos_of(a) =~= a.map_values(info));
    assert(infos_of(b) =~= b.map_values(info));
    lemma_map_keeps_members(a, b, info);
    lemma_order_decides_ties_only(infos_of(a), infos_of(b));
    lemma_ranking_len(infos_of(a));
    lemma_ranking_len(infos_of(b));
    let ra = ranks_of(ranking(infos_of(a)));
    let rb = ranks_of(ranking(infos_of(b)));
    assert(ranks_of(first).len() == ranks_of(second).len());
    assert forall|i: int| 0 <= i < ranks_of(first).len() implies ranks_of(first)[i] == ranks_of(
        second,
    )[i] by {
        assert(ranks_of(first)[i] == ra[i]);
        assert(ranks_of(second)[i] == rb[i]);
    }
    assert(ranks_of(first) =~= ranks_of(second));
}

} // verus!
