//! The Collatz trajectory generator.
//!
//! A trajectory starts at a seed and repeatedly applies the Syracuse rule
//! (halve an even value, send an odd value `n` to `3n + 1`) until the value 1
//! is reached, or until the next odd step would overflow `u64`. In the
//! overflow case the final value is appended once more and generation stops,
//! so a truncated trajectory ends with a repeated value that is not 1.

use vstd::prelude::*;

verus! {

/// Largest value whose odd step `3n + 1` still fits in a `u64`.
pub const OVERFLOW_GUARD: u64 = (u64::MAX - 1) / 3;

/// A value at which generation halts without taking a step: 1 is the fixed
/// point of the iteration, and 0 is treated as a fixed point as well (the
/// naive rule would loop 0 -> 0 forever).
pub open spec fn stops(n: u64) -> bool {
    n == 0 || n == 1
}

/// Holds when the odd step from `n` would overflow `u64`, so generation must
/// truncate at `n`.
pub open spec fn truncates(n: u64) -> bool {
    n % 2 == 1 && n > OVERFLOW_GUARD
}

/// The successor of `n` in a trajectory: the Syracuse rule, except that a
/// value whose odd step would overflow is its own successor (it is appended
/// once more before generation stops).
pub open spec fn collatz_next(n: u64) -> u64 {
    if n % 2 == 0 {
        n / 2
    } else if n > OVERFLOW_GUARD {
        n
    } else {
        (3 * n + 1) as u64
    }
}

/// The structural invariant of every sequence the generator builds: it starts
/// at `seed`, each element follows from its predecessor by `collatz_next`,
/// generation never continues past a stopping value, and a truncated step is
/// never followed by more than the single repeated element.
pub open spec fn chain_ok(seed: u64, s: Seq<u64>) -> bool {
    &&& s.len() >= 1
    &&& s[0] == seed
    &&& forall|i: int| 1 <= i < s.len() ==> #[trigger] s[i] == collatz_next(s[i - 1])
    &&& forall|i: int| 0 <= i < s.len() - 1 ==> !stops(#[trigger] s[i])
    &&& forall|i: int| 0 <= i < s.len() - 2 ==> !truncates(#[trigger] s[i])
}

/// A trajectory that ended for one of the two sanctioned reasons: its last
/// element is a stopping value (normal termination), or its second-to-last
/// element triggered the overflow guard (truncated termination).
pub open spec fn is_complete(s: Seq<u64>) -> bool
    recommends
        s.len() >= 1,
{
    stops(s.last()) || (s.len() >= 2 && truncates(s[s.len() - 2]))
}

/// A full Collatz trajectory for `seed`: a well-formed chain that terminated.
/// For each seed exactly one sequence satisfies this predicate
/// (see [`lemma_trajectory_unique`]).
pub open spec fn is_trajectory(seed: u64, s: Seq<u64>) -> bool {
    chain_ok(seed, s) && is_complete(s)
}

/// Everything `generate_sequence` promises of its result: a well-formed chain
/// that either terminated, or (in principle only) filled the entire address
/// space. The capacity escape hatch exists because termination of the Collatz
/// iteration is an open problem: the generator provably stops once its vector
/// reaches `usize::MAX` elements, a bound no physical machine can hit.
pub open spec fn generator_output(seed: u64, s: Seq<u64>) -> bool {
    &&& chain_ok(seed, s)
    &&& s.len() <= usize::MAX
    &&& is_complete(s) || s.len() == usize::MAX
}

/// Computes the Collatz trajectory of `start`.
///
/// The result begins with `start` and follows the Syracuse rule until it
/// reaches 1, with two exceptions: a seed of 0 yields `[0]` immediately, and
/// when an odd value's step `3n + 1` would overflow `u64`, that value is
/// appended once more and generation stops. A caller distinguishes a
/// truncated trajectory from a completed one by checking whether the last
/// element equals 1.
pub fn generate_sequence(start: u64) -> (sequence: Vec<u64>)
    ensures
        generator_output(start, sequence@),
{
    let mut sequence: Vec<u64> = Vec::new();
    if start == 0 {
        sequence.push(0);
        return sequence;
    }
    let mut current: u64 = start;
    sequence.push(current);
    while current != 1 && sequence.len() < usize::MAX
        invariant_except_break
            sequence@.len() >= 2 ==> !truncates(sequence@[sequence@.len() - 2]),
        invariant
            chain_ok(start, sequence@),
            1 <= sequence@.len() <= usize::MAX,
            sequence@.last() == current,
            current != 0,
        ensures
            chain_ok(start, sequence@),
            sequence@.len() <= usize::MAX,
            is_complete(sequence@) || sequence@.len() == usize::MAX,
        decreases usize::MAX - sequence@.len(),
    {
        if current % 2 == 0 {
            current = current / 2;
        } else {
            if current > OVERFLOW_GUARD {
                sequence.push(current);
                break;
            }
            current = 3 * current + 1;
        }
        sequence.push(current);
    }
    sequence
}

/// Any two well-formed chains for the same seed agree on every index they
/// both possess.
proof fn lemma_chain_agree(seed: u64, s1: Seq<u64>, s2: Seq<u64>, n: int)
    requires
        chain_ok(seed, s1),
        chain_ok(seed, s2),
        0 <= n <= s1.len(),
        n <= s2.len(),
    ensures
        forall|i: int| 0 <= i < n ==> s1[i] == s2[i],
    decreases n,
{
    if n > 0 {
        lemma_chain_agree(seed, s1, s2, n - 1);
        assert forall|i: int| 0 <= i < n implies s1[i] == s2[i] by {
            if i >= 1 && i == n - 1 {
                assert(s1[i] == collatz_next(s1[i - 1]));
                assert(s2[i] == collatz_next(s2[i - 1]));
            }
        }
    }
}

/// A chain that terminated cannot be a proper prefix of a longer well-formed
/// chain: past its last element the longer chain would have to continue from
/// a stopping value or beyond a truncation, and `chain_ok` forbids both.
proof fn lemma_complete_chain_is_maximal(seed: u64, s1: Seq<u64>, s2: Seq<u64>)
    requires
        chain_ok(seed, s1),
        chain_ok(seed, s2),
        is_complete(s1),
    ensures
        s2.len() <= s1.len(),
{
    if s1.len() < s2.len() {
        lemma_chain_agree(seed, s1, s2, s1.len() as int);
        let j = s1.len() - 1;
        assert(!stops(s2[j]));
        if !stops(s1.last()) {
            assert(truncates(s1[j - 1]));
            assert(!truncates(s2[j - 1]));
        }
        assert(false);
    }
}

/// Purity of the trajectory itself: a seed has at most one full trajectory,
/// so any procedure that returns a sequence satisfying `is_trajectory`
/// returns the same sequence every time.
pub proof fn lemma_trajectory_unique(seed: u64, s1: Seq<u64>, s2: Seq<u64>)
    requires
        is_trajectory(seed, s1),
        is_trajectory(seed, s2),
    ensures
        s1 == s2,
{
    lemma_complete_chain_is_maximal(seed, s1, s2);
    lemma_complete_chain_is_maximal(seed, s2, s1);
    lemma_chain_agree(seed, s1, s2, s1.len() as int);
    assert(s1 =~= s2);
}

/// Purity of the generator: two calls of `generate_sequence` on the same seed
/// yield identical output, since only one sequence satisfies its contract.
pub proof fn lemma_generator_output_unique(seed: u64, s1: Seq<u64>, s2: Seq<u64>)
    requires
        generator_output(seed, s1),
        generator_output(seed, s2),
    ensures
        s1 == s2,
{
    if s1.len() < s2.len() {
        assert(s1.len() < usize::MAX);
        assert(is_complete(s1));
        lemma_complete_chain_is_maximal(seed, s1, s2);
    }
    if s2.len() < s1.len() {
        assert(s2.len() < usize::MAX);
        assert(is_complete(s2));
        lemma_complete_chain_is_maximal(seed, s2, s1);
    }
    lemma_chain_agree(seed, s1, s2, s1.len() as int);
    assert(s1 =~= s2);
}

/// Truncated termination is observable exactly as promised: when the overflow
/// guard fired, the trajectory ends with the pre-overflow value appended once
/// more, and that last element is not 1.
pub proof fn lemma_truncation_observable(seed: u64, s: Seq<u64>)
    requires
        chain_ok(seed, s),
        s.len() >= 2,
        truncates(s[s.len() - 2]),
    ensures
        s.last() == s[s.len() - 2],
        s.last() % 2 == 1,
        s.last() > OVERFLOW_GUARD,
        s.last() != 1,
{
    assert(s.last() == collatz_next(s[s.len() - 2]));
    assert(!stops(s[s.len() - 2]));
}

} // verus!
