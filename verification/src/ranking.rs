//! The order in which the processes of a snapshot stand, and what holds of
//! it.
//!
//! Processes are ranked by processor usage, the greatest first. Entries of
//! equal usage keep the order in which they were given, which makes the
//! result a function of the list that was given; the order among them means
//! nothing beyond that.
//!
//! The ranking is defined by putting the entries in place one after the
//! other. It is the only list in descending order that keeps the entries of
//! every rank in their order (`lemma_ranking_unique`), so whatever computes
//! such a list computes the ranking.

use crate::process::ProcessInfo;
use vstd::prelude::*;

verus! {

/// The rank by which processes are ordered: that of their processor usage.
pub open spec fn rank_of(p: ProcessInfo) -> int {
    p.cpu_percent.rank()
}

/// Whether the entries can be ordered by processor usage: a NaN compares
/// with nothing, so none may occur where there is anything to compare.
pub open spec fn rankable(s: Seq<ProcessInfo>) -> bool {
    s.len() <= 1 || forall|i: int| 0 <= i < s.len() ==> !(#[trigger] s[i]).cpu_percent.is_nan()
}

/// Whether no entry uses less of the processor than a later one.
pub open spec fn sorted_desc(s: Seq<ProcessInfo>) -> bool {
    forall|i: int, j: int| 0 <= i < j < s.len() ==> rank_of(s[i]) >= rank_of(s[j])
}

/// The entries of the given rank, in their order.
pub open spec fn with_rank(s: Seq<ProcessInfo>, rank: int) -> Seq<ProcessInfo> {
    s.filter(|p: ProcessInfo| rank_of(p) == rank)
}

/// Where an entry of the given rank that comes after all of `ranked` belongs:
/// behind the last entry whose rank is no less, and at the front where there
/// is none.
pub open spec fn slot_of(ranked: Seq<ProcessInfo>, rank: int) -> int
    decreases ranked.len(),
{
    if ranked.len() == 0 || rank_of(ranked.last()) >= rank {
        ranked.len() as int
    } else {
        slot_of(ranked.drop_last(), rank)
    }
}

/// The entries in descending order of processor usage, entries of equal
/// usage in the order in which they were given.
pub open spec fn ranking(s: Seq<ProcessInfo>) -> Seq<ProcessInfo>
    decreases s.len(),
{
    if s.len() == 0 {
        s
    } else {
        let ranked = ranking(s.drop_last());
        ranked.insert(slot_of(ranked, rank_of(s.last())), s.last())
    }
}

/// The ranks of the entries, in the entries' order.
pub open spec fn ranks_of(s: Seq<ProcessInfo>) -> Seq<int> {
    s.map_values(|p: ProcessInfo| rank_of(p))
}

/// The first `limit` entries of the ranking, and all of it where it has
/// fewer.
pub open spec fn top_of(s: Seq<ProcessInfo>, limit: nat) -> Seq<ProcessInfo> {
    ranking(s).take(if limit < s.len() { limit as int } else { s.len() as int })
}

/// The slot lies behind every entry of at least the given rank that precedes
/// only lesser ones, and before all those lesser ones.
pub proof fn lemma_slot_of(ranked: Seq<ProcessInfo>, rank: int)
    ensures
        0 <= slot_of(ranked, rank) <= ranked.len(),
        forall|j: int| slot_of(ranked, rank) <= j < ranked.len() ==> rank_of(ranked[j]) < rank,
        slot_of(ranked, rank) > 0 ==> rank_of(ranked[slot_of(ranked, rank) - 1]) >= rank,
    decreases ranked.len(),
{
    if ranked.len() == 0 || rank_of(ranked.last()) >= rank {
    } else {
        lemma_slot_of(ranked.drop_last(), rank);
        assert forall|j: int| slot_of(ranked, rank) <= j < ranked.len() implies rank_of(ranked[j])
            < rank by {
            if j < ranked.len() - 1 {
                assert(ranked[j] == ranked.drop_last()[j]);
            }
        }
    }
}

/// A ranking has as many entries as were given.
pub proof fn lemma_ranking_len(s: Seq<ProcessInfo>)
    ensures
        ranking(s).len() == s.len(),
    decreases s.len(),
{
    if s.len() > 0 {
        lemma_ranking_len(s.drop_last());
        lemma_slot_of(ranking(s.drop_last()), rank_of(s.last()));
    }
}

/// A ranking is in descending order of processor usage.
pub proof fn lemma_ranking_sorted(s: Seq<ProcessInfo>)
    ensures
        sorted_desc(ranking(s)),
    decreases s.len(),
{
    if s.len() > 0 {
        let ranked = ranking(s.drop_last());
        let slot = slot_of(ranked, rank_of(s.last()));
        lemma_ranking_sorted(s.drop_last());
        lemma_slot_of(ranked, rank_of(s.last()));
        let out = ranked.insert(slot, s.last());
        assert forall|i: int, j: int| 0 <= i < j < out.len() implies rank_of(out[i]) >= rank_of(
            out[j],
        ) by {
            if j < slot {
                assert(out[i] == ranked[i] && out[j] == ranked[j]);
            } else if j == slot {
                assert(out[i] == ranked[i]);
                if i < slot - 1 {
                    assert(rank_of(ranked[i]) >= rank_of(ranked[slot - 1]));
                }
            } else if i < slot {
                assert(out[i] == ranked[i] && out[j] == ranked[j - 1]);
            } else if i == slot {
                assert(out[j] == ranked[j - 1]);
            } else {
                assert(out[i] == ranked[i - 1] && out[j] == ranked[j - 1]);
            }
        }
    }
}

/// A ranking holds the entries that were given, each as often as it was
/// given.
pub proof fn lemma_ranking_permutes(s: Seq<ProcessInfo>)
    ensures
        ranking(s).to_multiset() == s.to_multiset(),
    decreases s.len(),
{
    if s.len() == 0 {
    } else {
        let ranked = ranking(s.drop_last());
        lemma_ranking_permutes(s.drop_last());
        lemma_slot_of(ranked, rank_of(s.last()));
        vstd::seq_lib::to_multiset_insert(ranked, slot_of(ranked, rank_of(s.last())), s.last());
        vstd::seq_lib::to_multiset_build(s.drop_last(), s.last());
        assert(s.drop_last().push(s.last()) == s);
    }
}

/// What one more entry at the end adds to the entries of a rank.
pub proof fn lemma_with_rank_push(s: Seq<ProcessInfo>, p: ProcessInfo, rank: int)
    ensures
        with_rank(s.push(p), rank) == if rank_of(p) == rank {
            with_rank(s, rank).push(p)
        } else {
            with_rank(s, rank)
        },
{
    reveal(Seq::filter);
    assert(s.push(p).drop_last() == s);
}

/// An entry put in before lesser ones only comes last among those of its own
/// rank, and leaves the entries of every other rank as they were.
pub proof fn lemma_with_rank_insert(s: Seq<ProcessInfo>, slot: int, p: ProcessInfo, rank: int)
    requires
        0 <= slot <= s.len(),
        forall|j: int| slot <= j < s.len() ==> rank_of(s[j]) < rank_of(p),
    ensures
        with_rank(s.insert(slot, p), rank) == if rank_of(p) == rank {
            with_rank(s, rank).push(p)
        } else {
            with_rank(s, rank)
        },
    decreases s.len(),
{
    if slot == s.len() {
        assert(s.insert(slot, p) == s.push(p));
        lemma_with_rank_push(s, p, rank);
    } else {
        let front = s.drop_last();
        assert forall|j: int| slot <= j < front.len() implies rank_of(front[j]) < rank_of(p) by {
            assert(front[j] == s[j]);
        }
        lemma_with_rank_insert(front, slot, p, rank);
        assert(s.insert(slot, p) == front.insert(slot, p).push(s.last()));
        lemma_with_rank_push(front.insert(slot, p), s.last(), rank);
        assert(front.push(s.last()) == s);
        lemma_with_rank_push(front, s.last(), rank);
    }
}

/// A ranking is stable: the entries of one rank stand in it in the order in
/// which they were given.
pub proof fn lemma_ranking_stable(s: Seq<ProcessInfo>, rank: int)
    ensures
        with_rank(ranking(s), rank) == with_rank(s, rank),
    decreases s.len(),
{
    if s.len() > 0 {
        let ranked = ranking(s.drop_last());
        lemma_ranking_stable(s.drop_last(), rank);
        lemma_slot_of(ranked, rank_of(s.last()));
        lemma_with_rank_insert(ranked, slot_of(ranked, rank_of(s.last())), s.last(), rank);
        assert(s.drop_last().push(s.last()) == s);
        lemma_with_rank_push(s.drop_last(), s.last(), rank);
    }
}

/// Entries that are in descending order already are their own ranking: to
/// rank them again moves none, and so none of equal usage.
pub proof fn lemma_ranking_keeps_sorted(s: Seq<ProcessInfo>)
    requires
        sorted_desc(s),
    ensures
        ranking(s) == s,
    decreases s.len(),
{
    if s.len() > 0 {
        let front = s.drop_last();
        assert(sorted_desc(front)) by {
            assert forall|i: int, j: int| 0 <= i < j < front.len() implies rank_of(front[i])
                >= rank_of(front[j]) by {
                assert(front[i] == s[i] && front[j] == s[j]);
            }
        }
        lemma_ranking_keeps_sorted(front);
        if front.len() > 0 {
            assert(front.last() == s[s.len() - 2]);
        }
        assert(slot_of(front, rank_of(s.last())) == front.len());
        assert(front.insert(front.len() as int, s.last()) == s);
    }
}

/// To rank a ranking changes nothing.
pub proof fn lemma_ranking_idempotent(s: Seq<ProcessInfo>)
    ensures
        ranking(ranking(s)) == ranking(s),
{
    lemma_ranking_sorted(s);
    lemma_ranking_keeps_sorted(ranking(s));
}

/// Where there are entries of a rank, one of the entries has that rank.
pub proof fn lemma_with_rank_witness(s: Seq<ProcessInfo>, rank: int) -> (j: int)
    requires
        with_rank(s, rank).len() > 0,
    ensures
        0 <= j < s.len(),
        rank_of(s[j]) == rank,
    decreases s.len(),
{
    reveal(Seq::filter);
    if rank_of(s.last()) == rank {
        s.len() - 1
    } else {
        lemma_with_rank_witness(s.drop_last(), rank)
    }
}

/// Two lists in descending order that hold, for every rank, the same entries
/// in the same order are the same list.
pub proof fn lemma_sorted_determined(a: Seq<ProcessInfo>, b: Seq<ProcessInfo>)
    requires
        sorted_desc(a),
        sorted_desc(b),
        forall|rank: int| #[trigger] with_rank(a, rank) == with_rank(b, rank),
    ensures
        a == b,
    decreases a.len() + b.len(),
{
    if a.len() == 0 && b.len() == 0 {
        assert(a =~= b);
    } else if a.len() == 0 || b.len() == 0 {
        // one of the lists has a last entry, whose rank the other lacks
        let (full, empty) = if a.len() == 0 {
            (b, a)
        } else {
            (a, b)
        };
        let rank = rank_of(full.last());
        assert(full.drop_last().push(full.last()) == full);
        lemma_with_rank_push(full.drop_last(), full.last(), rank);
        assert(with_rank(a, rank) == with_rank(b, rank));
        assert(with_rank(empty, rank).len() == 0) by {
            reveal(Seq::filter);
        }
    } else {
        let x = a.last();
        let y = b.last();
        let a0 = a.drop_last();
        let b0 = b.drop_last();
        assert(a0.push(x) == a);
        assert(b0.push(y) == b);
        lemma_with_rank_push(a0, x, rank_of(x));
        lemma_with_rank_push(b0, y, rank_of(y));
        assert(with_rank(a, rank_of(x)) == with_rank(b, rank_of(x)));
        assert(with_rank(a, rank_of(y)) == with_rank(b, rank_of(y)));
        let jb = lemma_with_rank_witness(b, rank_of(x));
        let ja = lemma_with_rank_witness(a, rank_of(y));
        assert(rank_of(x) == rank_of(y));
        lemma_with_rank_push(b0, y, rank_of(x));
        assert(with_rank(a0, rank_of(x)).push(x) == with_rank(b0, rank_of(x)).push(y));
        assert(x == y) by {
            assert(with_rank(a0, rank_of(x)).push(x).last() == x);
            assert(with_rank(b0, rank_of(x)).push(y).last() == y);
        }
        assert forall|rank: int| #[trigger] with_rank(a0, rank) == with_rank(b0, rank) by {
            lemma_with_rank_push(a0, x, rank);
            lemma_with_rank_push(b0, y, rank);
            assert(with_rank(a, rank) == with_rank(b, rank));
            if rank == rank_of(x) {
                assert(with_rank(a0, rank) == with_rank(a0, rank).push(x).drop_last());
                assert(with_rank(b0, rank) == with_rank(b0, rank).push(y).drop_last());
            }
        }
        assert(sorted_desc(a0)) by {
            assert forall|i: int, j: int| 0 <= i < j < a0.len() implies rank_of(a0[i]) >= rank_of(
                a0[j],
            ) by {
                assert(a0[i] == a[i] && a0[j] == a[j]);
            }
        }
        assert(sorted_desc(b0)) by {
            assert forall|i: int, j: int| 0 <= i < j < b0.len() implies rank_of(b0[i]) >= rank_of(
                b0[j],
            ) by {
                assert(b0[i] == b[i] && b0[j] == b[j]);
            }
        }
        lemma_sorted_determined(a0, b0);
    }
}

/// The ranking is the one list in descending order that keeps, for every
/// rank, the entries of that rank in the order in which they were given.
pub proof fn lemma_ranking_unique(s: Seq<ProcessInfo>, t: Seq<ProcessInfo>)
    requires
        sorted_desc(t),
        forall|rank: int| #[trigger] with_rank(t, rank) == with_rank(s, rank),
    ensures
        t == ranking(s),
{
    lemma_ranking_sorted(s);
    assert forall|rank: int| #[trigger] with_rank(t, rank) == with_rank(ranking(s), rank) by {
        lemma_ranking_stable(s, rank);
    }
    lemma_sorted_determined(t, ranking(s));
}

/// A list can be ranked in parts: to rank the ranking of its front followed
/// by the ranking of its back gives the ranking of the whole.
pub proof fn lemma_ranking_of_parts(front: Seq<ProcessInfo>, back: Seq<ProcessInfo>)
    ensures
        ranking(ranking(front) + ranking(back)) == ranking(front + back),
{
    let parts = ranking(front) + ranking(back);
    lemma_ranking_sorted(parts);
    assert forall|rank: int| #[trigger]
        with_rank(ranking(parts), rank) == with_rank(front + back, rank) by {
        let of_rank = |p: ProcessInfo| rank_of(p) == rank;
        lemma_ranking_stable(parts, rank);
        lemma_ranking_stable(front, rank);
        lemma_ranking_stable(back, rank);
        Seq::filter_distributes_over_add(ranking(front), ranking(back), of_rank);
        Seq::filter_distributes_over_add(front, back, of_rank);
    }
    lemma_ranking_unique(front + back, ranking(parts));
}

/// Two lists with the same members keep the same members when the same
/// function is applied to each member.
pub proof fn lemma_map_keeps_members<A, B>(x: Seq<A>, y: Seq<A>, f: spec_fn(A) -> B)
    requires
        x.to_multiset() == y.to_multiset(),
    ensures
        x.map_values(f).to_multiset() == y.map_values(f).to_multiset(),
    decreases x.len(),
{
    vstd::seq_lib::to_multiset_len(x);
    vstd::seq_lib::to_multiset_len(y);
    if x.len() == 0 {
        assert(x.map_values(f) =~= y.map_values(f));
    } else {
        let last = x.last();
        vstd::seq_lib::to_multiset_contains(x, last);
        vstd::seq_lib::to_multiset_contains(y, last);
        assert(x.contains(last));
        let j = choose|j: int| 0 <= j < y.len() && y[j] == last;
        let x0 = x.drop_last();
        let y0 = y.remove(j);
        assert(x0 =~= x.remove(x.len() - 1));
        vstd::seq_lib::to_multiset_remove(x, x.len() - 1);
        vstd::seq_lib::to_multiset_remove(y, j);
        lemma_map_keeps_members(x0, y0, f);
        assert(x.map_values(f) =~= x0.map_values(f).push(f(last)));
        assert(y.map_values(f) =~= y0.map_values(f).insert(j, f(last)));
        vstd::seq_lib::to_multiset_build(x0.map_values(f), f(last));
        vstd::seq_lib::to_multiset_insert(y0.map_values(f), j, f(last));
    }
}

/// The order in which entries are given decides between entries of equal
/// usage, and nothing else: two lists with the same entries have rankings
/// with the same rank at every place.
pub proof fn lemma_order_decides_ties_only(a: Seq<ProcessInfo>, b: Seq<ProcessInfo>)
    requires
        a.to_multiset() == b.to_multiset(),
    ensures
        ranks_of(ranking(a)) == ranks_of(ranking(b)),
        a.len() == b.len(),
{
    let at_least = |x: int, y: int| x >= y;
    let rank = |p: ProcessInfo| rank_of(p);
    vstd::seq_lib::to_multiset_len(a);
    vstd::seq_lib::to_multiset_len(b);
    lemma_ranking_permutes(a);
    lemma_ranking_permutes(b);
    lemma_ranking_sorted(a);
    lemma_ranking_sorted(b);
    lemma_map_keeps_members(ranking(a), ranking(b), rank);
    let ra = ranks_of(ranking(a));
    let rb = ranks_of(ranking(b));
    assert(vstd::relations::sorted_by(ra, at_least)) by {
        assert forall|i: int, j: int| 0 <= i < j < ra.len() implies #[trigger] at_least(
            ra[i],
            ra[j],
        ) by {
            assert(ra[i] == rank_of(ranking(a)[i]) && ra[j] == rank_of(ranking(a)[j]));
        }
    }
    assert(vstd::relations::sorted_by(rb, at_least)) by {
        assert forall|i: int, j: int| 0 <= i < j < rb.len() implies #[trigger] at_least(
            rb[i],
            rb[j],
        ) by {
            assert(rb[i] == rank_of(ranking(b)[i]) && rb[j] == rank_of(ranking(b)[j]));
        }
    }
    assert(vstd::relations::total_ordering(at_least));
    vstd::seq_lib::lemma_sorted_unique(ra, rb, at_least);
}

/// The top list is as long as the limit lets it be: `limit` entries where
/// that many were given, and all of them otherwise. It is in descending
/// order, it is the front of the ranking, and no entry that it leaves out
/// uses more of the processor than one that it holds.
pub proof fn lemma_top_of(s: Seq<ProcessInfo>, limit: nat)
    ensures
        top_of(s, limit).len() == if limit < s.len() {
            limit
        } else {
            s.len()
        },
        top_of(s, limit).len() <= limit,
        s.len() >= limit ==> top_of(s, limit).len() == limit,
        limit == 0 ==> top_of(s, limit) == Seq::<ProcessInfo>::empty(),
        limit >= s.len() ==> top_of(s, limit) == ranking(s),
        sorted_desc(top_of(s, limit)),
        top_of(s, limit).is_prefix_of(ranking(s)),
        forall|i: int, j: int|
            0 <= i < top_of(s, limit).len() <= j < s.len() ==> rank_of(
                #[trigger] top_of(s, limit)[i],
            ) >= rank_of(#[trigger] ranking(s)[j]),
{
    lemma_ranking_len(s);
    lemma_ranking_sorted(s);
    let top = top_of(s, limit);
    assert forall|i: int, j: int| 0 <= i < j < top.len() implies rank_of(top[i]) >= rank_of(
        top[j],
    ) by {
        assert(top[i] == ranking(s)[i] && top[j] == ranking(s)[j]);
    }
    if limit >= s.len() {
        assert(top == ranking(s));
    }
    assert forall|i: int, j: int| 0 <= i < top.len() <= j < s.len() implies rank_of(
        #[trigger] top[i],
    ) >= rank_of(#[trigger] ranking(s)[j]) by {
        assert(top[i] == ranking(s)[i]);
    }
}

} // verus!
