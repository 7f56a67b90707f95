//! Sorting a list of processes into its ranking, by merging.
//!
//! The lists are queues here: merging takes entries from the front of two
//! lists and puts them at the back of a third.

use crate::process::ProcessInfo;
use crate::ranking::{
    lemma_ranking_keeps_sorted, lemma_ranking_of_parts, lemma_ranking_sorted,
    lemma_ranking_unique, lemma_with_rank_push, rank_of, ranking, sorted_desc, with_rank,
};
use std::collections::VecDeque;
use vstd::prelude::*;

verus! {

/// Merges two lists that are in descending order into the ranking of the
/// first followed by the second: where an entry of the first and one of the
/// second use the processor equally, that of the first comes first.
pub fn merge_ranked(first: VecDeque<ProcessInfo>, second: VecDeque<ProcessInfo>) -> (merged:
    VecDeque<ProcessInfo>)
    requires
        sorted_desc(first@),
        sorted_desc(second@),
    ensures
        merged@ == ranking(first@ + second@),
{
    let ghost a = first@;
    let ghost b = second@;
    let mut first = first;
    let mut second = second;
    let mut merged: VecDeque<ProcessInfo> = VecDeque::new();
    let ghost mut i: int = 0;
    let ghost mut j: int = 0;
    proof {
        assert(a.skip(0) == a && b.skip(0) == b);
        assert forall|rank: int| #[trigger]
            with_rank(merged@, rank) == with_rank(a.take(i), rank) + with_rank(
                b.take(j),
                rank,
            ) by {
            reveal(Seq::filter);
        }
    }
    loop
        invariant
            sorted_desc(a),
            sorted_desc(b),
            0 <= i <= a.len(),
            0 <= j <= b.len(),
            first@ == a.skip(i),
            second@ == b.skip(j),
            sorted_desc(merged@),
            merged@.len() > 0 && i < a.len() ==> rank_of(merged@.last()) >= rank_of(a[i]),
            merged@.len() > 0 && j < b.len() ==> rank_of(merged@.last()) >= rank_of(b[j]),
            i < a.len() ==> forall|m: int| 0 <= m < j ==> rank_of(b[m]) > rank_of(a[i]),
            forall|rank: int| #[trigger]
                with_rank(merged@, rank) == with_rank(a.take(i), rank) + with_rank(
                    b.take(j),
                    rank,
                ),
        ensures
            i == a.len(),
            j == b.len(),
            sorted_desc(merged@),
            forall|rank: int| #[trigger]
                with_rank(merged@, rank) == with_rank(a.take(i), rank) + with_rank(
                    b.take(j),
                    rank,
                ),
        decreases a.len() - i + b.len() - j,
    {
        let ghost before = merged@;
        if first.len() == 0 && second.len() == 0 {
            break ;
        }
        let from_first = if second.len() == 0 {
            true
        } else if first.len() == 0 {
            false
        } else {
            first[0].cpu_percent.order_key() >= second[0].cpu_percent.order_key()
        };
        if from_first {
            let x = first.pop_front().unwrap();
            merged.push_back(x);
            proof {
                assert(x == a[i]);
                assert(first@ == a.skip(i + 1));
                assert(a.take(i + 1) == a.take(i).push(x));
                assert forall|rank: int| #[trigger]
                    with_rank(merged@, rank) == with_rank(a.take(i + 1), rank) + with_rank(
                        b.take(j),
                        rank,
                    ) by {
                    lemma_with_rank_push(before, x, rank);
                    lemma_with_rank_push(a.take(i), x, rank);
                    if rank == rank_of(x) {
                        lemma_none_of_rank(b.take(j), rank);
                    }
                }
                lemma_sorted_push(before, x);
                i = i + 1;
            }
        } else {
            let y = second.pop_front().unwrap();
            merged.push_back(y);
            proof {
                assert(y == b[j]);
                assert(second@ == b.skip(j + 1));
                assert(b.take(j + 1) == b.take(j).push(y));
                assert forall|rank: int| #[trigger]
                    with_rank(merged@, rank) == with_rank(a.take(i), rank) + with_rank(
                        b.take(j + 1),
                        rank,
                    ) by {
                    lemma_with_rank_push(before, y, rank);
                    lemma_with_rank_push(b.take(j), y, rank);
                }
                lemma_sorted_push(before, y);
                j = j + 1;
            }
        }
    }
    proof {
        assert(a.take(i) == a && b.take(j) == b);
        assert forall|rank: int| #[trigger] with_rank(merged@, rank) == with_rank(a + b, rank) by {
            Seq::filter_distributes_over_add(a, b, |p: ProcessInfo| rank_of(p) == rank);
        }
        lemma_ranking_unique(a + b, merged@);
    }
    merged
}

/// Sorts a list into its ranking: into descending order of processor usage,
/// with entries of equal usage in the order in which they stood.
pub fn sort_by_usage(list: VecDeque<ProcessInfo>) -> (sorted: VecDeque<ProcessInfo>)
    ensures
        sorted@ == ranking(list@),
    decreases list@.len(),
{
    let n = list.len();
    if n <= 1 {
        proof {
            lemma_ranking_keeps_sorted(list@);
        }
        return list;
    }
    let ghost whole = list@;
    let mut first = list;
    let second = first.split_off(n / 2);
    proof {
        assert(whole == first@ + second@);
        lemma_ranking_of_parts(first@, second@);
        lemma_ranking_sorted(first@);
        lemma_ranking_sorted(second@);
    }
    let first = sort_by_usage(first);
    let second = sort_by_usage(second);
    merge_ranked(first, second)
}

/// A list in descending order stays so when an entry is added at its end
/// that uses no more of the processor than the last one.
proof fn lemma_sorted_push(s: Seq<ProcessInfo>, p: ProcessInfo)
    requires
        sorted_desc(s),
        s.len() > 0 ==> rank_of(s.last()) >= rank_of(p),
    ensures
        sorted_desc(s.push(p)),
{
    let t = s.push(p);
    assert forall|i: int, j: int| 0 <= i < j < t.len() implies rank_of(t[i]) >= rank_of(t[j]) by {
        if j < s.len() {
            assert(t[i] == s[i] && t[j] == s[j]);
        } else {
            assert(t[i] == s[i]);
            if i < s.len() - 1 {
                assert(rank_of(s[i]) >= rank_of(s[s.len() - 1]));
            }
        }
    }
}

/// A list none of whose entries has a rank has no entries of that rank.
proof fn lemma_none_of_rank(s: Seq<ProcessInfo>, rank: int)
    requires
        forall|m: int| 0 <= m < s.len() ==> rank_of(s[m]) != rank,
    ensures
        with_rank(s, rank) == Seq::<ProcessInfo>::empty(),
    decreases s.len(),
{
    reveal(Seq::filter);
    if s.len() > 0 {
        assert forall|m: int| 0 <= m < s.drop_last().len() implies rank_of(s.drop_last()[m])
            != rank by {
            assert(s.drop_last()[m] == s[m]);
        }
        lemma_none_of_rank(s.drop_last(), rank);
    }
}

} // verus!
