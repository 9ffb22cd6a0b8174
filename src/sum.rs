//! Checked summation of a slice of `u32`.
use vstd::prelude::*;

verus! {

/// The mathematical sum of `s`.
pub open spec fn seq_sum(s: Seq<u32>) -> nat
    decreases s.len(),
{
    if s.len() == 0 {
        0
    } else {
        seq_sum(s.drop_last()) + s.last() as nat
    }
}

/// The sum of `numbers`, or `None` when it does not fit in a `u32`.
pub fn sum(numbers: &[u32]) -> (r: Option<u32>)
    ensures
        seq_sum(numbers@) <= u32::MAX ==> r == Some(seq_sum(numbers@) as u32),
        seq_sum(numbers@) > u32::MAX ==> r is None,
{
    let mut total: u32 = 0;
    let mut i: usize = 0;
    while i < numbers.len()
        invariant
            i <= numbers@.len(),
            total == seq_sum(numbers@.subrange(0, i as int)),
        decreases numbers@.len() - i,
    {
        proof {
            assert(numbers@.subrange(0, i + 1).drop_last() =~= numbers@.subrange(0, i as int));
        }
        match total.checked_add(numbers[i]) {
            Some(t) => {
                total = t;
            },
            None => {
                proof {
                    lemma_sum_prefix_le(numbers@, i + 1);
                }
                return None;
            },
        }
        i = i + 1;
    }
    assert(numbers@.subrange(0, i as int) =~= numbers@);
    Some(total)
}

/// A prefix sums to no more than the whole.
proof fn lemma_sum_prefix_le(s: Seq<u32>, n: int)
    requires
        0 <= n <= s.len(),
    ensures
        seq_sum(s.subrange(0, n)) <= seq_sum(s),
    decreases s.len() - n,
{
    if n < s.len() {
        lemma_sum_prefix_le(s, n + 1);
        assert(s.subrange(0, n + 1).drop_last() =~= s.subrange(0, n));
    } else {
        assert(s.subrange(0, n) =~= s);
    }
}

} // verus!
