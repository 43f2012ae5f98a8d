//! Summary statistics over a Collatz trajectory.
//!
//! [`calculate_stats`] condenses a trajectory into a [`CollatzStats`] record:
//! its length, the peak value with the *last* index at which the peak occurs,
//! the even/odd partition of the elements, and the stopping time (the first
//! index after the seed whose value drops strictly below the seed, defaulting
//! to the last index when no value does). An empty sequence is accepted
//! defensively and yields the all-zero record.

use vstd::prelude::*;

verus! {

/// Statistics derived from one trajectory in a single pass over its elements.
#[derive(Clone, Copy, Debug, PartialEq, Eq, Structural)]
pub struct CollatzStats {
    /// Number of elements in the trajectory (flight time plus one).
    pub length: usize,
    /// Largest value reached (the maximum altitude).
    pub max_value: u64,
    /// Last index at which `max_value` occurs.
    pub max_value_index: usize,
    /// Number of even elements.
    pub even_count: usize,
    /// Number of odd elements; together with `even_count` it partitions
    /// `length`.
    pub odd_count: usize,
    /// Index of the first element after the seed that is strictly smaller
    /// than the seed, or the last index if no element drops below it.
    pub stopping_time: usize,
}

/// `v` is the maximum of `s` and `idx` is the *last* index holding it: every
/// element is at most `v`, and everything after `idx` is strictly below `v`.
pub open spec fn is_max_at(s: Seq<u64>, v: u64, idx: int) -> bool {
    &&& 0 <= idx < s.len()
    &&& s[idx] == v
    &&& forall|i: int| 0 <= i < s.len() ==> #[trigger] s[i] <= v
    &&& forall|i: int| idx < i < s.len() ==> #[trigger] s[i] < v
}

/// Number of even elements of `s`.
pub open spec fn even_count_of(s: Seq<u64>) -> nat
    decreases s.len(),
{
    if s.len() == 0 {
        0
    } else {
        even_count_of(s.drop_last()) + (if s.last() % 2 == 0 {
            1nat
        } else {
            0nat
        })
    }
}

/// Some element after the seed drops strictly below the seed.
pub open spec fn drops_below_start(s: Seq<u64>) -> bool {
    exists|i: int| 1 <= i < s.len() && #[trigger] s[i] < s[0]
}

/// `t` is the stopping time of `s`: the first index from 1 onward whose value
/// is strictly below the seed `s[0]`, or the last index when no such element
/// exists.
pub open spec fn is_stopping_time(s: Seq<u64>, t: int) -> bool
    recommends
        s.len() >= 1,
{
    if drops_below_start(s) {
        &&& 1 <= t < s.len()
        &&& s[t] < s[0]
        &&& forall|j: int| 1 <= j < t ==> #[trigger] s[j] >= s[0]
    } else {
        t == s.len() - 1
    }
}

/// Everything `calculate_stats` promises of its record. For a given sequence
/// exactly one record satisfies this predicate (see [`lemma_stats_unique`]).
pub open spec fn stats_for(s: Seq<u64>, stats: CollatzStats) -> bool {
    &&& stats.length == s.len()
    &&& stats.even_count == even_count_of(s)
    &&& stats.even_count + stats.odd_count == stats.length
    &&& if s.len() == 0 {
        stats.max_value == 0 && stats.max_value_index == 0 && stats.stopping_time == 0
    } else {
        &&& is_max_at(s, stats.max_value, stats.max_value_index as int)
        &&& is_stopping_time(s, stats.stopping_time as int)
    }
}

/// Calculates the summary statistics of `sequence`.
///
/// The record is fully determined by the input: the length, the even/odd
/// partition, the peak value with the last index at which it occurs, and the
/// stopping time, with the all-zero record for an empty input.
pub fn calculate_stats(sequence: &[u64]) -> (stats: CollatzStats)
    ensures
        stats_for(sequence@, stats),
{
    if sequence.len() == 0 {
        return CollatzStats {
            length: 0,
            max_value: 0,
            max_value_index: 0,
            even_count: 0,
            odd_count: 0,
            stopping_time: 0,
        };
    }

    let length = sequence.len();
    let start_value = sequence[0];

    // Peak scan; `>=` keeps the *last* index among equal maxima.
    let mut max_value: u64 = start_value;
    let mut max_value_index: usize = 0;
    let mut i: usize = 1;
    while i < length
        invariant
            1 <= i <= length == sequence@.len(),
            max_value_index < i,
            sequence@[max_value_index as int] == max_value,
            forall|j: int| 0 <= j < i ==> #[trigger] sequence@[j] <= max_value,
            forall|j: int| max_value_index < j < i ==> #[trigger] sequence@[j] < max_value,
        decreases length - i,
    {
        if sequence[i] >= max_value {
            max_value = sequence[i];
            max_value_index = i;
        }
        i += 1;
    }

    // Parity scan.
    let mut even_count: usize = 0;
    let mut i: usize = 0;
    while i < length
        invariant
            i <= length == sequence@.len(),
            even_count <= i,
            even_count == even_count_of(sequence@.take(i as int)),
        decreases length - i,
    {
        proof {
            assert(sequence@.take(i + 1).drop_last() =~= sequence@.take(i as int));
            assert(sequence@.take(i + 1).last() == sequence@[i as int]);
        }
        if sequence[i] % 2 == 0 {
            even_count += 1;
        }
        i += 1;
    }
    proof {
        assert(sequence@.take(length as int) =~= sequence@);
    }
    let odd_count = length - even_count;

    // Stopping-time scan: first value after the seed strictly below it,
    // defaulting to the last index.
    let mut stopping_time: usize = length - 1;
    let mut i: usize = 1;
    while i < length
        invariant_except_break
            stopping_time == length - 1,
        invariant
            1 <= i <= length == sequence@.len(),
            start_value == sequence@[0],
            forall|j: int| 1 <= j < i ==> #[trigger] sequence@[j] >= sequence@[0],
        ensures
            is_stopping_time(sequence@, stopping_time as int),
        decreases length - i,
    {
        if sequence[i] < start_value {
            stopping_time = i;
            break;
        }
        i += 1;
    }

    CollatzStats { length, max_value, max_value_index, even_count, odd_count, stopping_time }
}

/// Purity of the statistics: a sequence determines its record completely, so
/// any procedure that returns a record satisfying `stats_for` returns the
/// same record every time.
pub proof fn lemma_stats_unique(s: Seq<u64>, a: CollatzStats, b: CollatzStats)
    requires
        stats_for(s, a),
        stats_for(s, b),
    ensures
        a == b,
{
    if s.len() > 0 {
        assert(s[a.max_value_index as int] <= b.max_value);
        assert(s[b.max_value_index as int] <= a.max_value);
        if a.max_value_index < b.max_value_index {
            assert(s[b.max_value_index as int] < a.max_value);
        }
        if b.max_value_index < a.max_value_index {
            assert(s[a.max_value_index as int] < b.max_value);
        }
        if drops_below_start(s) {
            if a.stopping_time < b.stopping_time {
                assert(s[a.stopping_time as int] >= s[0]);
            }
            if b.stopping_time < a.stopping_time {
                assert(s[b.stopping_time as int] >= s[0]);
            }
        }
    }
}

} // verus!
