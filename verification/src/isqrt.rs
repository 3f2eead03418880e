//! Integer square roots, computed by binary search and characterized
//! exactly: the root of `n` is the largest integer whose square does not
//! exceed `n`.

use vstd::prelude::*;

verus! {

/// `r` is the integer square root of `n`: the largest integer whose square
/// does not exceed `n`.
pub open spec fn is_sqrt_floor(n: int, r: int) -> bool {
    0 <= r && r * r <= n && n < (r + 1) * (r + 1)
}

/// A number has at most one integer square root, so `is_sqrt_floor` pins
/// the result of `isqrt` down completely.
pub proof fn lemma_sqrt_floor_unique(n: int, r1: int, r2: int)
    requires
        is_sqrt_floor(n, r1),
        is_sqrt_floor(n, r2),
    ensures
        r1 == r2,
{
    assert(r1 == r2) by (nonlinear_arith)
        requires
            0 <= r1,
            r1 * r1 <= n,
            n < (r1 + 1) * (r1 + 1),
            0 <= r2,
            r2 * r2 <= n,
            n < (r2 + 1) * (r2 + 1),
    ;
}

/// Computes the integer square root of `n`: the largest `r` with
/// `r * r <= n`. Total over all of `u128`; the result always fits in 64
/// bits.
pub fn isqrt(n: u128) -> (r: u128)
    ensures
        is_sqrt_floor(n as int, r as int),
        r <= u64::MAX,
{
    let mut lo: u128 = 0;
    let mut hi: u128 = 0xffff_ffff_ffff_ffff;
    proof {
        assert((hi + 1) * (hi + 1) > n) by (nonlinear_arith)
            requires
                hi == 0xffff_ffff_ffff_ffffu128,
                n <= u128::MAX,
        ;
    }
    while lo < hi
        invariant
            lo <= hi,
            hi <= 0xffff_ffff_ffff_ffffu128,
            lo * lo <= n,
            n < (hi + 1) * (hi + 1),
        decreases hi - lo,
    {
        let half: u128 = (hi - lo + 1) / 2;
        let mid: u128 = lo + half;
        assert(lo < mid && mid <= hi);
        assert(mid * mid <= 0xffff_ffff_ffff_ffffu128 * 0xffff_ffff_ffff_ffffu128)
            by (nonlinear_arith)
            requires
                mid <= 0xffff_ffff_ffff_ffffu128,
        ;
        let sq: u128 = mid * mid;
        if sq <= n {
            lo = mid;
        } else {
            hi = mid - 1;
        }
    }
    lo
}

} // verus!
