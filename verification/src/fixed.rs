//! Fixed-point scalar arithmetic for world and screen coordinates.
//!
//! A coordinate is stored as an `i64` count of *grid units*, where one world
//! unit is `FX_ONE` grid units. Multiplication and division round toward
//! negative infinity (floor), so every operation has an exact integer
//! description that the contracts state literally.
use vstd::arithmetic::div_mod::{lemma_fundamental_div_mod, lemma_fundamental_div_mod_converse};
use vstd::prelude::*;

verus! {

/// Grid units per world unit.
pub const FX_ONE: i64 = 65536;

/// Fixed-point product of two grid values (floor rounding).
pub open spec fn fx_mul(a: int, b: int) -> int {
    (a * b) / (FX_ONE as int)
}

/// Fixed-point quotient of two grid values (floor rounding); meaningful for
/// positive divisors.
pub open spec fn fx_div(a: int, b: int) -> int {
    (a * (FX_ONE as int)) / b
}

/// Clamp `x` into `[lo, hi]`.
pub open spec fn clamp_spec(x: int, lo: int, hi: int) -> int {
    if x < lo {
        lo
    } else if x > hi {
        hi
    } else {
        x
    }
}

/// A point in normalized world coordinates, in grid units.
#[derive(Clone, Copy, Debug, PartialEq, Eq, Structural)]
pub struct WorldVec {
    pub x: i64,
    pub y: i64,
}

/// Clamp an `i128` into an `i64` interval.
pub fn clamp_i128(x: i128, lo: i64, hi: i64) -> (r: i64)
    requires
        lo <= hi,
    ensures
        r == clamp_spec(x as int, lo as int, hi as int),
{
    if x < lo as i128 {
        lo
    } else if x > hi as i128 {
        hi
    } else {
        x as i64
    }
}

/// Bound on the magnitude of a product from bounds on its factors.
pub proof fn lemma_mul_magnitude(a: int, b: int, ma: int, mb: int)
    requires
        -ma <= a <= ma,
        0 <= b <= mb,
        0 <= ma,
    ensures
        -(ma * mb) <= a * b <= ma * mb,
{
    assert(-(ma * mb) <= a * b <= ma * mb) by (nonlinear_arith)
        requires
            -ma <= a <= ma,
            0 <= b <= mb,
            0 <= ma,
    ;
}

/// The magnitude of a floor quotient shrinks with the divisor: with
/// `|a| <= m` and `b >= bmin`, the quotient lies within `m / bmin + 1`.
pub proof fn lemma_div_floor_magnitude(a: int, b: int, q: int, m: int, bmin: int, qb: int)
    requires
        b >= bmin >= 1,
        b * q <= a < b * (q + 1),
        -m <= a <= m,
        0 <= m,
        qb * bmin >= m,
    ensures
        -qb - 1 <= q <= qb,
{
    assert(-qb - 1 <= q <= qb) by (nonlinear_arith)
        requires
            b >= bmin >= 1,
            b * q <= a < b * (q + 1),
            -m <= a <= m,
            0 <= m,
            qb * bmin >= m,
    ;
}

/// Floor division on `i128`, for positive divisors. Spec-level `/` on `int`
/// is Euclidean division, which rounds toward negative infinity whenever the
/// divisor is positive, so the contract is stated with plain `/`.
pub fn div_floor_i128(a: i128, b: i128) -> (q: i128)
    requires
        b >= 1,
        -0x40000000000000000000000000000000 < a,
    ensures
        q == a as int / b as int,
        b * q <= a < b * (q + 1),
        a >= 0 ==> 0 <= q <= a,
        a < 0 ==> a <= q <= 0,
{
    proof {
        lemma_fundamental_div_mod(a as int, b as int);
        assert(b * (a as int / b as int) <= a < b * (a as int / b as int + 1)) by (nonlinear_arith)
            requires
                b >= 1,
                a as int == b as int * (a as int / b as int) + (a as int % b as int),
                0 <= (a as int % b as int) < b,
        ;
        assert({
            let d = a as int / b as int;
            &&& (a >= 0 ==> 0 <= d <= a)
            &&& (a < 0 ==> a <= d <= 0)
        }) by (nonlinear_arith)
            requires
                b >= 1,
                b * (a as int / b as int) <= a < b * (a as int / b as int + 1),
        ;
    }
    if a >= 0 {
        let q: i128 = ((a as u128) / (b as u128)) as i128;
        proof {
            assert(a as int / b as int == (a as u128) as int / (b as u128) as int);
        }
        q
    } else {
        let na: u128 = (-a) as u128;
        let ub: u128 = b as u128;
        let quo: u128 = na / ub;
        let rem: u128 = na % ub;
        if rem == 0 {
            let q: i128 = -(quo as i128);
            proof {
                lemma_fundamental_div_mod(na as int, ub as int);
                assert(a as int == q as int * b as int) by (nonlinear_arith)
                    requires
                        a as int == -(na as int),
                        na as int == ub as int * (quo as int) + (rem as int),
                        rem == 0,
                        q as int == -(quo as int),
                        b as int == ub as int,
                ;
                lemma_fundamental_div_mod_converse(a as int, b as int, q as int, 0);
            }
            q
        } else {
            let q: i128 = -(quo as i128) - 1;
            proof {
                lemma_fundamental_div_mod(na as int, ub as int);
                assert(a as int == q as int * b as int + (b - rem)) by (nonlinear_arith)
                    requires
                        a as int == -(na as int),
                        na as int == ub as int * (quo as int) + (rem as int),
                        q as int == -(quo as int) - 1,
                        b as int == ub as int,
                ;
                lemma_fundamental_div_mod_converse(a as int, b as int, q as int, b - rem);
            }
            q
        }
    }
}

/// `sqrt_floor(n)` is the integer square root of `n`, by unary recursion;
/// `lemma_sqrt_floor` gives its characteristic property.
pub open spec fn sqrt_floor(n: nat) -> nat
    decreases n,
{
    if n == 0 {
        0
    } else {
        let p = sqrt_floor((n - 1) as nat);
        if (p + 1) * (p + 1) <= n {
            p + 1
        } else {
            p
        }
    }
}

/// The integer square root squares to at most `n`, and the next integer up
/// squares past it.
pub proof fn lemma_sqrt_floor(n: nat)
    ensures
        sqrt_floor(n) * sqrt_floor(n) <= n,
        n < (sqrt_floor(n) + 1) * (sqrt_floor(n) + 1),
    decreases n,
{
    if n > 0 {
        lemma_sqrt_floor((n - 1) as nat);
        let p = sqrt_floor((n - 1) as nat);
        if (p + 1) * (p + 1) <= n {
            assert(sqrt_floor(n) == p + 1);
            assert(n < (p + 1 + 1) * (p + 1 + 1)) by (nonlinear_arith)
                requires
                    (n - 1) < (p + 1) * (p + 1),
            ;
        } else {
            assert(sqrt_floor(n) == p);
        }
    } else {
        assert(sqrt_floor(0) == 0);
        assert((0 + 1) * (0 + 1) == 1) by (nonlinear_arith);
    }
}

/// Any `r` with `r^2 <= n < (r+1)^2` is the integer square root.
pub proof fn lemma_sqrt_floor_unique(n: nat, r: nat)
    requires
        r * r <= n,
        n < (r + 1) * (r + 1),
    ensures
        r == sqrt_floor(n),
{
    lemma_sqrt_floor(n);
    let s = sqrt_floor(n);
    assert(r == s) by (nonlinear_arith)
        requires
            r * r <= n < (r + 1) * (r + 1),
            s * s <= n < (s + 1) * (s + 1),
            r >= 0,
            s >= 0,
    ;
}

/// Integer square root of a `u64`, by bisection.
pub fn isqrt_u64(n: u64) -> (r: u64)
    ensures
        r == sqrt_floor(n as nat),
{
    if n == 0 {
        proof {
            assert((0 + 1) * (0 + 1) == 1) by (nonlinear_arith);
            lemma_sqrt_floor_unique(n as nat, 0);
        }
        return 0;
    }
    let mut lo: u64 = 0;
    let mut hi: u64 = 0x100000000;
    proof {
        assert((0x100000000u64 as int) * (0x100000000u64 as int) > n as int) by (nonlinear_arith)
            requires
                n < 0x10000000000000000,
        ;
    }
    while lo + 1 < hi
        invariant
            lo < hi <= 0x100000000,
            (lo as int) * (lo as int) <= n as int,
            (hi as int) * (hi as int) > n as int,
        decreases hi - lo,
    {
        let mid: u64 = lo + (hi - lo) / 2;
        proof {
            assert((mid as int) * (mid as int) <= 0x100000000 * 0x100000000) by (nonlinear_arith)
                requires
                    0 <= mid as int <= 0x100000000,
            ;
        }
        let sq: u128 = (mid as u128) * (mid as u128);
        if sq <= n as u128 {
            lo = mid;
        } else {
            hi = mid;
        }
    }
    proof {
        assert(hi == lo + 1);
        lemma_sqrt_floor_unique(n as nat, lo as nat);
    }
    lo
}

} // verus!
