//! Integer square root, used to turn exact square distances in square
//! micrometers into distances in micrometers.

use vstd::prelude::*;

verus! {

/// `r` is the integer square root of `x`: the largest integer whose square
/// does not exceed `x`.
pub open spec fn is_isqrt(x: int, r: int) -> bool {
    &&& 0 <= r
    &&& r * r <= x
    &&& x < (r + 1) * (r + 1)
}

/// Law: the integer square root is unique, so any two values satisfying
/// [`is_isqrt`] for the same radicand are equal.
pub proof fn lemma_isqrt_unique(x: int, r1: int, r2: int)
    requires
        is_isqrt(x, r1),
        is_isqrt(x, r2),
    ensures
        r1 == r2,
{
    assert(r1 <= r2 && r2 <= r1) by (nonlinear_arith)
        requires
            0 <= r1,
            0 <= r2,
            r1 * r1 <= x,
            x < (r1 + 1) * (r1 + 1),
            r2 * r2 <= x,
            x < (r2 + 1) * (r2 + 1),
    ;
}

/// The integer square root as a function: largest integer whose square does
/// not exceed `x`, computed by halving the radicand two bits at a time.
pub open spec fn isqrt_spec(x: int) -> int
    decreases x,
{
    if x < 1 {
        0
    } else {
        let h: int = isqrt_spec(x / 4);
        if (2 * h + 1) * (2 * h + 1) <= x {
            2 * h + 1
        } else {
            2 * h
        }
    }
}

/// Law: [`isqrt_spec`] satisfies the integer square root characterization.
pub proof fn lemma_isqrt_spec_correct(x: int)
    requires
        0 <= x,
    ensures
        is_isqrt(x, isqrt_spec(x)),
    decreases x,
{
    if x >= 1 {
        lemma_isqrt_spec_correct(x / 4);
        let h: int = isqrt_spec(x / 4);
        assert((2 * h) * (2 * h) <= x && x < (2 * h + 2) * (2 * h + 2)) by (nonlinear_arith)
            requires
                x >= 1,
                0 <= h,
                h * h <= x / 4,
                x / 4 < (h + 1) * (h + 1),
        ;
    }
}

/// The integer square root of a 128-bit value, by binary search.
pub fn isqrt_u128(x: u128) -> (r: u64)
    ensures
        is_isqrt(x as int, r as int),
        r == isqrt_spec(x as int),
{
    let mut lo: u64 = 0;
    let mut hi: u128 = 0x1_0000_0000_0000_0000;
    proof {
        assert((x as int) < (0x1_0000_0000_0000_0000int) * (0x1_0000_0000_0000_0000int));
    }
    while (lo as u128) + 1 < hi
        invariant
            (lo as int) * (lo as int) <= x as int,
            (x as int) < (hi as int) * (hi as int),
            (lo as u128) < hi,
            hi <= 0x1_0000_0000_0000_0000,
        decreases hi - lo as u128,
    {
        let mid: u128 = ((lo as u128) + hi) / 2;
        proof {
            assert((lo as u128) < mid < hi);
            assert((mid as int) * (mid as int)
                < 0x1_0000_0000_0000_0000_0000_0000_0000_0000) by (nonlinear_arith)
                requires
                    0 <= mid < 0x1_0000_0000_0000_0000u128,
            ;
        }
        if mid * mid <= x {
            lo = mid as u64;
        } else {
            hi = mid;
        }
    }
    proof {
        lemma_isqrt_spec_correct(x as int);
        lemma_isqrt_unique(x as int, lo as int, isqrt_spec(x as int));
    }
    lo
}

} // verus!
