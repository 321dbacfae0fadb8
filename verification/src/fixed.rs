//! Fixed-point scalar arithmetic.
//!
//! Scalars are `i64`. A position coordinate is measured in micro-units
//! (one unit is 1_000_000), a speed in milli-units per second (one unit
//! per second is 1_000), and a time in milliseconds. With these scales a
//! speed multiplied by a delta is exactly a position increment, with no
//! rounding at all.

use vstd::prelude::*;

verus! {

/// Milli scale: speeds and interpolation rates carry three fractional
/// decimal digits.
pub const MILLI: i64 = 1_000;

/// Micro scale: positions carry six fractional decimal digits.
pub const MICRO: i64 = 1_000_000;

/// Magnitude bound under which every product formed by this module stays
/// inside `i64`.
pub const FX_BOUND: i64 = 4_000_000_000_000_000_000;

/// Truncating division by 1000 on the mathematical integers: the quotient
/// is rounded toward zero, as machine division rounds.
pub open spec fn div_milli(x: int) -> int {
    if x >= 0 {
        x / 1000
    } else {
        -((-x) / 1000)
    }
}

/// Truncating division by 1000, rounding toward zero.
pub fn div_milli_i64(x: i64) -> (r: i64)
    requires
        -FX_BOUND <= x <= FX_BOUND,
    ensures
        r == div_milli(x as int),
        -FX_BOUND <= r <= FX_BOUND,
{
    if x >= 0 {
        let q: i64 = ((x as u64) / 1000) as i64;
        assert(q == (x as int) / 1000) by {
            assert((x as u64) as int == x as int);
        };
        q
    } else {
        let m: i64 = -x;
        let q: i64 = ((m as u64) / 1000) as i64;
        assert(q == (m as int) / 1000) by {
            assert((m as u64) as int == m as int);
        };
        -q
    }
}

/// Scale `x` by the milli-scaled factor `f`: the exact product `x * f / 1000`
/// rounded toward zero.
pub open spec fn scale_milli(x: int, f: int) -> int {
    div_milli(x * f)
}

/// Multiply `x` by a milli-scaled factor `f`, rounding toward zero.
pub fn scale_milli_i64(x: i64, f: i64) -> (r: i64)
    requires
        -FX_BOUND <= x * f <= FX_BOUND,
    ensures
        r == scale_milli(x as int, f as int),
{
    let p: i64 = x * f;
    div_milli_i64(p)
}

/// Truncating division by 1000 shrinks magnitudes: a bound on the input
/// divides through to the quotient.
pub proof fn lemma_div_milli_bound(x: int, b: int)
    requires
        -b <= x <= b,
        0 <= b,
    ensures
        -(b / 1000) <= div_milli(x) <= b / 1000,
{
    if x >= 0 {
        vstd::arithmetic::div_mod::lemma_div_is_ordered(x, b, 1000);
        vstd::arithmetic::div_mod::lemma_div_pos_is_pos(x, 1000);
    } else {
        vstd::arithmetic::div_mod::lemma_div_is_ordered(-x, b, 1000);
        vstd::arithmetic::div_mod::lemma_div_pos_is_pos(-x, 1000);
    }
}

/// Truncating division of `a` by a positive `b`, rounded toward zero.
pub open spec fn div_trunc(a: int, b: int) -> int {
    if a >= 0 {
        a / b
    } else {
        -((-a) / b)
    }
}

/// Truncating division, rounded toward zero.
pub fn div_trunc_i64(a: i64, b: i64) -> (r: i64)
    requires
        b > 0,
        a > i64::MIN,
    ensures
        r == div_trunc(a as int, b as int),
{
    if a >= 0 {
        let q: i64 = ((a as u64) / (b as u64)) as i64;
        proof {
            assert((a as u64) as int == a as int);
            assert((b as u64) as int == b as int);
            vstd::arithmetic::div_mod::lemma_div_pos_is_pos(a as int, b as int);
            vstd::arithmetic::div_mod::lemma_div_is_ordered(a as int, a as int, b as int);
            assert((a as int) / (b as int) <= a as int) by {
                vstd::arithmetic::div_mod::lemma_div_nonincreasing(a as int, b as int);
            };
        }
        q
    } else {
        let m: i64 = -a;
        let q: i64 = ((m as u64) / (b as u64)) as i64;
        proof {
            assert((m as u64) as int == m as int);
            vstd::arithmetic::div_mod::lemma_div_pos_is_pos(m as int, b as int);
            assert((m as int) / (b as int) <= m as int) by {
                vstd::arithmetic::div_mod::lemma_div_nonincreasing(m as int, b as int);
            };
        }
        -q
    }
}

/// The integer square root, rounded down: the largest `s` with
/// `s * s <= n` (zero for non-positive `n`).
pub open spec fn sqrt_floor(n: int) -> int
    decreases n,
{
    if n <= 0 {
        0
    } else {
        let s = sqrt_floor(n - 1);
        if (s + 1) * (s + 1) <= n {
            s + 1
        } else {
            s
        }
    }
}

/// `sqrt_floor` is what its name says: its square is at most `n` and the
/// next square is beyond it.
pub proof fn lemma_sqrt_floor_bounds(n: int)
    requires
        n >= 0,
    ensures
        sqrt_floor(n) >= 0,
        sqrt_floor(n) * sqrt_floor(n) <= n,
        n < (sqrt_floor(n) + 1) * (sqrt_floor(n) + 1),
    decreases n,
{
    if n == 0 {
    } else {
        lemma_sqrt_floor_bounds(n - 1);
        let s = sqrt_floor(n - 1);
        if (s + 1) * (s + 1) <= n {
            assert(n < (s + 2) * (s + 2)) by (nonlinear_arith)
                requires
                    n - 1 < (s + 1) * (s + 1),
                    s >= 0,
            ;
        }
    }
}

/// Any root whose square brackets `n` is the floor square root.
pub proof fn lemma_sqrt_floor_unique(n: int, r: int)
    requires
        n >= 0,
        r >= 0,
        r * r <= n,
        n < (r + 1) * (r + 1),
    ensures
        r == sqrt_floor(n),
{
    lemma_sqrt_floor_bounds(n);
    let s = sqrt_floor(n);
    if r < s {
        assert((r + 1) * (r + 1) <= s * s) by (nonlinear_arith)
            requires
                0 <= r + 1 <= s,
        ;
    } else if s < r {
        assert((s + 1) * (s + 1) <= r * r) by (nonlinear_arith)
            requires
                0 <= s + 1 <= r,
        ;
    }
}

/// The integer square root of a 128-bit value, rounded down, by binary
/// search.
pub fn isqrt_u128(n: u128) -> (r: u64)
    ensures
        r as int == sqrt_floor(n as int),
{
    let mut lo: u64 = 0;
    let mut hi: u64 = u64::MAX;
    proof {
        let two64: int = 0x10000000000000000;
        assert((n as int) < two64 * two64) by (nonlinear_arith)
            requires
                two64 == 0x10000000000000000,
                n as int <= u128::MAX,
        ;
        assert((hi as int + 1) * (hi as int + 1) > n as int);
    }
    while lo < hi
        invariant
            lo <= hi,
            (lo as int) * (lo as int) <= n as int,
            (hi as int + 1) * (hi as int + 1) > n as int,
        decreases hi - lo,
    {
        let mid: u64 = ((lo as u128 + hi as u128 + 1) / 2) as u64;
        proof {
            assert(lo < mid <= hi);
        }
        proof {
            let two64: int = 0x10000000000000000;
            assert((mid as int) * (mid as int) < two64 * two64) by (nonlinear_arith)
                requires
                    two64 == 0x10000000000000000,
                    0 <= (mid as int) && (mid as int) < two64,
            ;
            assert(two64 * two64 - 1 == u128::MAX);
        }
        let sq: u128 = (mid as u128) * (mid as u128);
        if sq <= n {
            lo = mid;
        } else {
            hi = mid - 1;
        }
    }
    proof {
        lemma_sqrt_floor_unique(n as int, lo as int);
    }
    lo
}

/// Clamp `x` into `[lo, hi]`.
pub open spec fn clamp_spec(x: int, lo: int, hi: int) -> int {
    if x < lo {
        lo
    } else if x > hi {
        hi
    } else {
        x
    }
}

} // verus!
