//! Integer square roots, and the small arithmetic facts the voting logic
//! needs about them.

use vstd::prelude::*;

verus! {

/// `r` is the integer square root of `x`: the largest integer whose square
/// does not exceed `x`.
pub open spec fn is_integer_sqrt(x: int, r: int) -> bool {
    &&& 0 <= r
    &&& r * r <= x
    &&& x < (r + 1) * (r + 1)
}

/// The integer square root of `x`, by binary search over `0 ..= 2^64`.
pub fn integer_sqrt(x: u128) -> (r: u128)
    ensures
        is_integer_sqrt(x as int, r as int),
{
    let mut lo: u128 = 0;
    let mut hi: u128 = 0x1_0000_0000_0000_0000;
    assert((hi as int) * (hi as int) > x as int) by (nonlinear_arith)
        requires
            hi == 0x1_0000_0000_0000_0000u128,
            x <= u128::MAX,
    ;
    while lo + 1 < hi
        invariant
            lo < hi <= 0x1_0000_0000_0000_0000u128,
            (lo as int) * (lo as int) <= x as int,
            (x as int) < (hi as int) * (hi as int),
        decreases hi - lo,
    {
        let mid = lo + (hi - lo) / 2;
        assert((mid as int) * (mid as int) <= u128::MAX as int) by (nonlinear_arith)
            requires
                mid < 0x1_0000_0000_0000_0000u128,
        ;
        if mid * mid <= x {
            lo = mid;
        } else {
            hi = mid;
        }
    }
    lo
}

/// An integer square root never exceeds its argument.
pub proof fn lemma_integer_sqrt_le(x: int, r: int)
    requires
        is_integer_sqrt(x, r),
    ensures
        r <= x,
{
    if r >= 1 {
        assert(r <= r * r) by (nonlinear_arith)
            requires
                r >= 1,
        ;
    }
}

/// The integer square root is unique.
pub proof fn lemma_integer_sqrt_unique(x: int, r1: int, r2: int)
    requires
        is_integer_sqrt(x, r1),
        is_integer_sqrt(x, r2),
    ensures
        r1 == r2,
{
    assert(r1 == r2) by (nonlinear_arith)
        requires
            0 <= r1 && r1 * r1 <= x && x < (r1 + 1) * (r1 + 1),
            0 <= r2 && r2 * r2 <= x && x < (r2 + 1) * (r2 + 1),
    ;
}

/// The integer square root of a value below `2^128` fits in 64 bits.
pub proof fn lemma_integer_sqrt_fits_u64(x: int, r: int)
    requires
        is_integer_sqrt(x, r),
        x <= u128::MAX,
    ensures
        r <= u64::MAX,
{
    assert(r <= u64::MAX) by (nonlinear_arith)
        requires
            0 <= r,
            r * r <= x,
            x <= u128::MAX,
    ;
}

} // verus!
