//! Truncating signed division, the rounding used when a point is projected
//! onto the interior of a segment.

use vstd::prelude::*;

verus! {

/// Division truncating toward zero (the rounding of machine signed division),
/// stated over the mathematical Euclidean division of nonnegative values.
pub open spec fn tdiv(a: int, b: int) -> int {
    if a >= 0 {
        a / b
    } else {
        -((-a) / b)
    }
}

/// Divides a signed 128-bit value by a positive one, truncating toward zero.
pub fn div_i128(a: i128, b: i128) -> (r: i128)
    requires
        b > 0,
        -0x7fff_ffff_ffff_ffff_ffff_ffff_ffff_ffff <= a,
    ensures
        r == tdiv(a as int, b as int),
{
    if a >= 0 {
        let q: u128 = (a as u128) / (b as u128);
        proof {
            assert(q <= a as u128) by (nonlinear_arith)
                requires
                    q == (a as u128) / (b as u128),
                    b as u128 > 0,
            ;
        }
        q as i128
    } else {
        let m: u128 = (-a) as u128;
        let q: u128 = m / (b as u128);
        proof {
            assert(q <= m) by (nonlinear_arith)
                requires
                    q == m / (b as u128),
                    b as u128 > 0,
            ;
        }
        -(q as i128)
    }
}

/// Law: truncating division never grows the magnitude beyond the exact
/// quotient bound — `|a| <= m` gives `|tdiv(a, b)| <= m / b`.
pub proof fn lemma_tdiv_magnitude(a: int, b: int, m: int)
    requires
        b > 0,
        0 <= m,
        -m <= a <= m,
    ensures
        -(m / b) <= tdiv(a, b) <= m / b,
{
    if a >= 0 {
        assert(a / b <= m / b && 0 <= a / b) by (nonlinear_arith)
            requires
                0 <= a <= m,
                b > 0,
        ;
    } else {
        assert((-a) / b <= m / b && 0 <= (-a) / b) by (nonlinear_arith)
            requires
                0 < -a <= m,
                b > 0,
        ;
    }
}

} // verus!
