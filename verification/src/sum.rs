//! Overflow-aware summation of a slice of `u32`.

use vstd::prelude::*;

verus! {

/// The mathematical sum of a sequence of `u32`, with no upper bound.
pub open spec fn total(s: Seq<u32>) -> int
    decreases s.len(),
{
    if s.len() == 0 {
        0
    } else {
        total(s.drop_last()) + s.last()
    }
}

/// A prefix never sums to more than the whole sequence.
pub proof fn lemma_total_prefix(s: Seq<u32>, n: int)
    requires
        0 <= n <= s.len(),
    ensures
        0 <= total(s.take(n)) <= total(s),
    decreases s.len() - n,
{
    if n == s.len() {
        assert(s.take(n) =~= s);
        lemma_total_nonnegative(s);
    } else {
        lemma_total_prefix(s, n + 1);
        assert(s.take(n + 1).drop_last() =~= s.take(n));
        lemma_total_nonnegative(s.take(n));
    }
}

/// A sum of unsigned values is never negative.
pub proof fn lemma_total_nonnegative(s: Seq<u32>)
    ensures
        0 <= total(s),
    decreases s.len(),
{
    if s.len() > 0 {
        lemma_total_nonnegative(s.drop_last());
    }
}

/// Adds up `num_set`. Returns the sum when it fits in a `u32`, and `None`
/// when it does not.
pub fn cal_sum(num_set: &[u32]) -> (res: Option<u32>)
    ensures
        total(num_set@) <= u32::MAX ==> res == Some(total(num_set@) as u32),
        total(num_set@) > u32::MAX ==> res.is_none(),
{
    let mut acc: u64 = 0;
    let mut i: usize = 0;
    while i < num_set.len()
        invariant
            0 <= i <= num_set.len(),
            acc == total(num_set@.take(i as int)),
            acc <= u32::MAX,
        decreases num_set.len() - i,
    {
        proof {
            assert(num_set@.take(i + 1).drop_last() =~= num_set@.take(i as int));
        }
        acc = acc + num_set[i] as u64;
        i = i + 1;
        if acc > u32::MAX as u64 {
            proof {
                lemma_total_prefix(num_set@, i as int);
            }
            return None;
        }
    }
    proof {
        assert(num_set@.take(i as int) =~= num_set@);
    }
    Some(acc as u32)
}

} // verus!
