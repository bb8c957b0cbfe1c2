//! Numeric helpers: sums of memory sizes and round-to-nearest division.

use vstd::prelude::*;

verus! {

/// Sum of a sequence of memory sizes, as a mathematical integer.
pub open spec fn sum_u64(s: Seq<u64>) -> int
    decreases s.len(),
{
    if s.len() == 0 {
        0
    } else {
        sum_u64(s.drop_last()) + s.last()
    }
}

/// A prefix never sums to more than the whole sequence.
pub proof fn lemma_sum_prefix_le(s: Seq<u64>, n: int)
    requires
        0 <= n <= s.len(),
    ensures
        sum_u64(s.subrange(0, n)) <= sum_u64(s),
    decreases s.len() - n,
{
    if n == s.len() {
        assert(s.subrange(0, n) =~= s);
    } else {
        lemma_sum_prefix_le(s, n + 1);
        let p = s.subrange(0, n + 1);
        assert(p.drop_last() =~= s.subrange(0, n));
        assert(sum_u64(s.subrange(0, n)) <= sum_u64(p));
    }
}

/// Every sum of memory sizes is nonnegative.
pub proof fn lemma_sum_nonneg(s: Seq<u64>)
    ensures
        sum_u64(s) >= 0,
    decreases s.len(),
{
    if s.len() > 0 {
        lemma_sum_nonneg(s.drop_last());
    }
}

/// Sum a vector of memory sizes.
pub fn sum_vec_u64(v: &Vec<u64>) -> (r: u64)
    requires
        sum_u64(v@) <= u64::MAX,
    ensures
        r == sum_u64(v@),
{
    let mut total: u64 = 0;
    let mut i: usize = 0;
    while i < v.len()
        invariant
            i <= v@.len(),
            sum_u64(v@) <= u64::MAX,
            total == sum_u64(v@.subrange(0, i as int)),
        decreases v@.len() - i,
    {
        proof {
            let p = v@.subrange(0, i + 1);
            assert(p.drop_last() =~= v@.subrange(0, i as int));
            lemma_sum_prefix_le(v@, i + 1);
            lemma_sum_nonneg(v@.subrange(0, i as int));
        }
        total = total + v[i];
        i += 1;
    }
    proof {
        assert(v@.subrange(0, v@.len() as int) =~= v@);
    }
    total
}

/// `a / b` rounded to the nearest integer, halves rounding up.
pub open spec fn round_div(a: int, b: int) -> int
    recommends
        b > 0,
{
    (2 * a + b) / (2 * b)
}

/// Round-to-nearest division stays within `[0, bound]` when the numerator
/// does.
pub proof fn lemma_round_div_bounds(a: int, b: int, bound: int)
    requires
        b >= 1,
        0 <= a,
        a <= bound * b,
        bound >= 0,
    ensures
        0 <= round_div(a, b),
        round_div(a, b) <= bound,
{
    assert(0 <= (2 * a + b) / (2 * b) && (2 * a + b) / (2 * b) <= bound) by (nonlinear_arith)
        requires
            b >= 1,
            0 <= a,
            a <= bound * b,
            bound >= 0,
    {
        assert(2 * a + b >= 0);
        assert(2 * b > 0);
        assert(2 * a + b <= 2 * (bound * b) + b);
        assert(2 * (bound * b) + b == bound * (2 * b) + b);
        assert((bound * (2 * b) + b) / (2 * b) == bound + b / (2 * b));
        assert(b / (2 * b) == 0);
    }
}

} // verus!
