//! Fixed-point arithmetic used throughout the engine.
//!
//! Amplitudes, volumes and envelope levels are Q16 values: the integer
//! `AMP_ONE` (65536) stands for 1.0, and a full-scale sample lies in
//! `[-AMP_ONE, AMP_ONE]`. Multiplication of two Q16 values divides the
//! wide product by `AMP_ONE`, truncating toward zero exactly as the
//! hardware float product would round toward zero magnitudes.

use vstd::prelude::*;

verus! {

/// Q16 representation of 1.0 for amplitudes, volumes and envelope levels.
pub const AMP_ONE: i64 = 65536;

/// Q32 representation of one second, the unit of envelope times.
pub const TIME_ONE: u64 = 0x1_0000_0000;

/// Truncated (toward zero) integer division, the rounding used by all
/// fixed-point scaling in the engine.
pub open spec fn tdiv(a: int, d: int) -> int
    recommends
        d > 0,
{
    if a >= 0 {
        a / d
    } else {
        -((-a) / d)
    }
}

/// The product of two Q16 values, rescaled back to Q16.
pub open spec fn tmul(a: int, b: int) -> int {
    tdiv(a * b, AMP_ONE as int)
}

/// Multiply two Q16 values, truncating toward zero.
pub fn qmul(a: i64, b: i64) -> (r: i64)
    requires
        -0x4000_0000 <= a <= 0x4000_0000,
        -0x4000_0000 <= b <= 0x4000_0000,
    ensures
        r == tmul(a as int, b as int),
{
    let neg: bool = (a < 0) != (b < 0);
    let ma: u64 = if a < 0 {
        (-a) as u64
    } else {
        a as u64
    };
    let mb: u64 = if b < 0 {
        (-b) as u64
    } else {
        b as u64
    };
    assert(ma * mb <= 0x4000_0000u64 * 0x4000_0000u64) by (nonlinear_arith)
        requires
            ma <= 0x4000_0000u64,
            mb <= 0x4000_0000u64,
    ;
    let m: u64 = (ma * mb) / 65536;
    assert(m <= ma * mb) by (nonlinear_arith)
        requires
            m == (ma * mb) / 65536,
    ;
    if neg {
        assert(a * b == -((ma * mb) as int)) by (nonlinear_arith)
            requires
                ((a < 0) != (b < 0)),
                ma == if a < 0 { -a as int } else { a as int },
                mb == if b < 0 { -b as int } else { b as int },
        ;
        -(m as i64)
    } else {
        assert(a * b == (ma * mb) as int) by (nonlinear_arith)
            requires
                !((a < 0) != (b < 0)),
                ma == if a < 0 { -a as int } else { a as int },
                mb == if b < 0 { -b as int } else { b as int },
        ;
        m as i64
    }
}

/// Divide a signed value by a positive divisor, truncating toward zero.
pub fn tdiv_exec(a: i64, d: u64) -> (r: i64)
    requires
        0 < d <= 0x7fff_ffff_ffff_ffff,
        a > i64::MIN,
    ensures
        r == tdiv(a as int, d as int),
{
    if a >= 0 {
        let q: u64 = (a as u64) / d;
        assert(q <= a as u64) by {
            vstd::arithmetic::div_mod::lemma_div_nonincreasing(a as int, d as int);
        }
        q as i64
    } else {
        let q: u64 = ((-a) as u64) / d;
        assert(q <= (-a) as u64) by {
            vstd::arithmetic::div_mod::lemma_div_nonincreasing(-a as int, d as int);
        }
        -(q as i64)
    }
}

/// Truncated division shrinks magnitudes: a bound on the operands gives a
/// bound on the scaled product.
pub proof fn lemma_tmul_bound(a: int, b: int, bound_a: int, bound_b: int)
    requires
        -bound_a <= a <= bound_a,
        -bound_b <= b <= bound_b,
        0 <= bound_a,
        0 <= bound_b,
    ensures
        -tdiv(bound_a * bound_b, AMP_ONE as int) <= tmul(a, b) <= tdiv(
            bound_a * bound_b,
            AMP_ONE as int,
        ),
{
    assert(-(bound_a * bound_b) <= a * b <= bound_a * bound_b) by (nonlinear_arith)
        requires
            -bound_a <= a <= bound_a,
            -bound_b <= b <= bound_b,
            0 <= bound_a,
            0 <= bound_b,
    ;
    lemma_tdiv_ordered_abs(a * b, bound_a * bound_b, AMP_ONE as int);
}

/// Truncated division is monotone in the magnitude of the numerator.
pub proof fn lemma_tdiv_ordered_abs(x: int, bound: int, d: int)
    requires
        -bound <= x <= bound,
        0 <= bound,
        0 < d,
    ensures
        -tdiv(bound, d) <= tdiv(x, d) <= tdiv(bound, d),
{
    if x >= 0 {
        vstd::arithmetic::div_mod::lemma_div_is_ordered(x, bound, d);
        vstd::arithmetic::div_mod::lemma_div_pos_is_pos(x, d);
        vstd::arithmetic::div_mod::lemma_div_pos_is_pos(bound, d);
    } else {
        vstd::arithmetic::div_mod::lemma_div_is_ordered(-x, bound, d);
        vstd::arithmetic::div_mod::lemma_div_pos_is_pos(-x, d);
        vstd::arithmetic::div_mod::lemma_div_pos_is_pos(bound, d);
    }
}

/// The integer square root, defined by counting up.
pub open spec fn spec_isqrt(x: nat) -> nat
    decreases x,
{
    if x == 0 {
        0
    } else {
        let r = spec_isqrt((x - 1) as nat);
        if (r + 1) * (r + 1) <= x {
            r + 1
        } else {
            r
        }
    }
}

/// `spec_isqrt` is the floor of the square root.
pub proof fn lemma_isqrt_bounds(x: nat)
    ensures
        spec_isqrt(x) * spec_isqrt(x) <= x,
        x < (spec_isqrt(x) + 1) * (spec_isqrt(x) + 1),
    decreases x,
{
    if x > 0 {
        lemma_isqrt_bounds((x - 1) as nat);
        let r = spec_isqrt((x - 1) as nat);
        let s = spec_isqrt(x);
        assert(r * r <= x - 1 && x - 1 < (r + 1) * (r + 1));
        if (r + 1) * (r + 1) <= x {
            assert(s == r + 1);
            assert(spec_isqrt(x) * spec_isqrt(x) <= x && x < (spec_isqrt(x) + 1) * (spec_isqrt(x)
                + 1)) by (nonlinear_arith)
                requires
                    spec_isqrt(x) == r + 1,
                    (r + 1) * (r + 1) <= x,
                    (x - 1) < (r + 1) * (r + 1),
                    r >= 0,
            ;
        } else {
            assert(s == r);
            assert(spec_isqrt(x) * spec_isqrt(x) <= x && x < (spec_isqrt(x) + 1) * (spec_isqrt(x)
                + 1)) by (nonlinear_arith)
                requires
                    spec_isqrt(x) == r,
                    r * r <= x - 1,
                    !((r + 1) * (r + 1) <= x),
            ;
        }
    } else {
        assert(spec_isqrt(0) == 0);
        assert(spec_isqrt(x) * spec_isqrt(x) <= x && x < (spec_isqrt(x) + 1) * (spec_isqrt(x)
            + 1)) by (nonlinear_arith)
            requires
                x == 0,
                spec_isqrt(x) == 0,
        ;
    }
}

/// Any value meeting the floor-of-square-root bounds is `spec_isqrt`.
pub proof fn lemma_isqrt_unique(x: nat, r: nat)
    requires
        r * r <= x,
        x < (r + 1) * (r + 1),
    ensures
        r == spec_isqrt(x),
{
    lemma_isqrt_bounds(x);
    let s = spec_isqrt(x);
    if r < s {
        assert((r + 1) * (r + 1) <= s * s) by (nonlinear_arith)
            requires
                r < s,
                r >= 0,
        ;
    }
    if s < r {
        assert((s + 1) * (s + 1) <= r * r) by (nonlinear_arith)
            requires
                s < r,
                s >= 0,
        ;
    }
}

/// Integer square root by binary search.
pub fn isqrt(x: u64) -> (r: u64)
    requires
        x < 0x4000_0000_0000_0000,
    ensures
        r == spec_isqrt(x as nat),
        r * r <= x < (r + 1) * (r + 1),
{
    let mut lo: u64 = 0;
    let mut hi: u64 = 0x8000_0000;
    assert(0x8000_0000u64 * 0x8000_0000u64 == 0x4000_0000_0000_0000) by (nonlinear_arith);
    while lo + 1 < hi
        invariant
            lo < hi,
            hi <= 0x8000_0000,
            lo * lo <= x,
            x < hi * hi,
        decreases hi - lo,
    {
        let mid: u64 = lo + (hi - lo) / 2;
        assert(mid * mid <= 0x8000_0000u64 * 0x8000_0000u64) by (nonlinear_arith)
            requires
                mid <= 0x8000_0000u64,
        ;
        if mid * mid <= x {
            lo = mid;
        } else {
            hi = mid;
        }
    }
    proof {
        lemma_isqrt_unique(x as nat, lo as nat);
    }
    lo
}

} // verus!
