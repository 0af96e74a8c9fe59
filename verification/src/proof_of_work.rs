//! The median of a window of timestamps.

use vstd::prelude::*;
use vstd::relations::sorted_by;
use vstd::relations::total_ordering;
use vstd::seq_lib::lemma_sorted_unique;

verus! {

/// The order of timestamps.
pub open spec fn timestamp_order() -> spec_fn(u64, u64) -> bool {
    |a: u64, b: u64| a <= b
}

/// The median of a non-empty sequence of timestamps: the middle element of
/// the sequence in ascending order. Where the count is even, it is the lower
/// of the two middle elements; no average is taken.
pub open spec fn median_of(timestamps: Seq<u64>) -> u64 {
    timestamps.sort_by(timestamp_order())[(timestamps.len() - 1) / 2]
}

/// There is one ascending arrangement only.
proof fn lemma_sorts_to(timestamps: Seq<u64>, sorted: Seq<u64>)
    requires
        sorted_by(sorted, timestamp_order()),
        sorted.to_multiset() == timestamps.to_multiset(),
    ensures
        sorted == timestamps.sort_by(timestamp_order()),
        sorted.len() == timestamps.len(),
{
    broadcast use vstd::seq_lib::group_to_multiset_ensures;

    let leq = timestamp_order();
    assert(total_ordering(leq));
    timestamps.lemma_sort_by_ensures(leq);
    lemma_sorted_unique(sorted, timestamps.sort_by(leq), leq);
    assert(sorted.to_multiset().len() == sorted.len());
    assert(timestamps.to_multiset().len() == timestamps.len());
}

/// The timestamps in ascending order.
pub fn sort_timestamps(timestamps: &Vec<u64>) -> (sorted: Vec<u64>)
    ensures
        sorted@ == timestamps@.sort_by(timestamp_order()),
        sorted@.len() == timestamps@.len(),
{
    broadcast use vstd::seq_lib::group_to_multiset_ensures;

    let ghost leq = timestamp_order();
    let mut sorted: Vec<u64> = Vec::new();
    let n = timestamps.len();
    let mut i: usize = 0;
    assert(timestamps@.take(0) =~= Seq::<u64>::empty());
    while i < n
        invariant
            n == timestamps.len(),
            i <= n,
            leq == timestamp_order(),
            sorted@.len() == i,
            sorted_by(sorted@, leq),
            sorted@.to_multiset() == timestamps@.take(i as int).to_multiset(),
        decreases n - i,
    {
        let x = timestamps[i];
        let mut j: usize = 0;
        while j < sorted.len() && sorted[j] <= x
            invariant
                j <= sorted.len(),
                forall|k: int| 0 <= k < j ==> sorted@[k] <= x,
            decreases sorted.len() - j,
        {
            j += 1;
        }
        let ghost before = sorted@;
        sorted.insert(j, x);
        proof {
            assert(sorted@ == before.insert(j as int, x));
            assert forall|a: int, b: int| 0 <= a < b < sorted@.len() implies #[trigger] leq(
                sorted@[a],
                sorted@[b],
            ) by {
                if a < j && b > j {
                    assert(leq(before[a], before[b - 1]));
                } else if a > j {
                    assert(leq(before[a - 1], before[b - 1]));
                } else if b < j {
                    assert(leq(before[a], before[b]));
                } else if a == j {
                    assert(leq(before[j as int], before[b - 1]));
                }
            }
            assert(timestamps@.take(i + 1) =~= timestamps@.take(i as int).push(x));
            vstd::seq_lib::to_multiset_insert(before, j as int, x);
            vstd::seq_lib::to_multiset_build(timestamps@.take(i as int), x);
        }
        i += 1;
    }
    proof {
        assert(timestamps@.take(n as int) =~= timestamps@);
        lemma_sorts_to(timestamps@, sorted@);
    }
    sorted
}

/// The median of the timestamps, if there are any.
pub fn get_median_timestamp(timestamps: Vec<u64>) -> (r: Option<u64>)
    ensures
        timestamps@.len() == 0 ==> r is None,
        timestamps@.len() > 0 ==> r == Some(median_of(timestamps@)),
{
    if timestamps.len() == 0 {
        return None;
    }
    let sorted = sort_timestamps(&timestamps);
    let mid = (timestamps.len() - 1) / 2;
    Some(sorted[mid])
}

} // verus!
