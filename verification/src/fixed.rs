//! Fixed-point scalar arithmetic.
//!
//! Every coordinate, ray parameter and color channel in this crate is a
//! `i128` holding a real value scaled by `FX_ONE` (2^32).  All operations
//! saturate at `FX_BIG`, which doubles as the "infinity" produced when a ray
//! runs parallel to an axis plane, and truncate toward zero when rounding.
//! Saturation keeps every routine total: no input can overflow, divide by
//! zero, or produce an undefined value.

use vstd::prelude::*;

verus! {

/// The fixed-point representation of 1.0: values are scaled by 2^32.
pub const FX_ONE: i128 = 4294967296;

/// Saturation bound (2^96 - 1); also serves as the "infinite" ray parameter.
pub const FX_BIG: i128 = 79228162514264337593543950335;

/// The intersection tolerance 0.001, scaled (floor of 0.001 * 2^32).
pub const FX_EPS: i128 = 4294967;

/// Magnitude of an integer.
pub open spec fn abs_s(x: int) -> int {
    if x >= 0 {
        x
    } else {
        -x
    }
}

/// A scalar that the arithmetic routines accept: magnitude at most `FX_BIG`.
pub open spec fn fx_in(x: int) -> bool {
    -FX_BIG <= x <= FX_BIG
}

/// Clamp into the representable range.
pub open spec fn sat_s(x: int) -> int {
    if x > FX_BIG {
        FX_BIG as int
    } else if x < -FX_BIG {
        -FX_BIG as int
    } else {
        x
    }
}

/// Division truncating toward zero (the rounding used by every scaled
/// operation), defined for q != 0.
pub open spec fn div_t(p: int, q: int) -> int {
    if (p >= 0) == (q >= 0) {
        abs_s(p) / abs_s(q)
    } else {
        -(abs_s(p) / abs_s(q))
    }
}

/// What `fx_add` returns.
pub open spec fn fx_add_s(a: int, b: int) -> int {
    sat_s(a + b)
}

/// What `fx_sub` returns.
pub open spec fn fx_sub_s(a: int, b: int) -> int {
    sat_s(a - b)
}

/// What `fx_mul` returns: the scaled product, truncated and saturated.
pub open spec fn fx_mul_s(a: int, b: int) -> int {
    sat_s(div_t(a * b, FX_ONE as int))
}

/// What `fx_div` returns.  Division by zero saturates (or gives zero for
/// 0/0), so a degenerate denominator yields an "unreachable" parameter
/// rather than an undefined value.
pub open spec fn fx_div_s(a: int, b: int) -> int {
    if b == 0 {
        if a == 0 {
            0
        } else if a > 0 {
            FX_BIG as int
        } else {
            -FX_BIG as int
        }
    } else {
        sat_s(div_t(a * (FX_ONE as int), b))
    }
}

/// `r` is the integer square root of `n` rounded down.
pub open spec fn is_sqrt(n: int, r: int) -> bool {
    &&& 0 <= r
    &&& r * r <= n
    &&& n < (r + 1) * (r + 1)
}

/// The integer square root, rounded down (well defined for n >= 0).
pub open spec fn sqrt_floor(n: int) -> int {
    choose|r: int| is_sqrt(n, r)
}

/// What `fx_sqrt` returns: zero for non-positive input, else the scaled root.
pub open spec fn fx_sqrt_s(a: int) -> int {
    if a <= 0 {
        0
    } else {
        sqrt_floor(a * (FX_ONE as int))
    }
}

/// The rounded-down square root is unique.
pub proof fn lemma_sqrt_unique(n: int, r1: int, r2: int)
    requires
        is_sqrt(n, r1),
        is_sqrt(n, r2),
    ensures
        r1 == r2,
{
    if r1 < r2 {
        assert((r1 + 1) * (r1 + 1) <= r2 * r2) by (nonlinear_arith)
            requires
                0 <= r1,
                r1 < r2,
        ;
    }
    if r2 < r1 {
        assert((r2 + 1) * (r2 + 1) <= r1 * r1) by (nonlinear_arith)
            requires
                0 <= r2,
                r2 < r1,
        ;
    }
}

/// Clamp a scalar into the representable range.
pub fn fx_sat(x: i128) -> (r: i128)
    ensures
        r == sat_s(x as int),
{
    if x > FX_BIG {
        FX_BIG
    } else if x < -FX_BIG {
        -FX_BIG
    } else {
        x
    }
}

/// Magnitude of an in-range scalar, as an unsigned value.
fn abs_u(a: i128) -> (r: u128)
    requires
        a != i128::MIN,
    ensures
        r == abs_s(a as int),
{
    if a >= 0 {
        a as u128
    } else {
        (-a) as u128
    }
}

/// Saturating addition.
pub fn fx_add(a: i128, b: i128) -> (r: i128)
    requires
        fx_in(a as int),
        fx_in(b as int),
    ensures
        r == fx_add_s(a as int, b as int),
        fx_in(r as int),
{
    fx_sat(a + b)
}

/// Saturating subtraction.
pub fn fx_sub(a: i128, b: i128) -> (r: i128)
    requires
        fx_in(a as int),
        fx_in(b as int),
    ensures
        r == fx_sub_s(a as int, b as int),
        fx_in(r as int),
{
    fx_sat(a - b)
}

/// Negation (exact: the range is symmetric).
pub fn fx_neg(a: i128) -> (r: i128)
    requires
        fx_in(a as int),
    ensures
        r == -(a as int),
        fx_in(r as int),
{
    -a
}

/// The product of the magnitudes is the magnitude of the product.
proof fn lemma_abs_mul(a: int, b: int)
    ensures
        abs_s(a) * abs_s(b) == abs_s(a * b),
        (a * b >= 0) == ((a >= 0) == (b >= 0)) || a * b == 0,
{
    assert(abs_s(a) * abs_s(b) == abs_s(a * b) && ((a * b >= 0) == ((a >= 0) == (b >= 0)) || a * b
        == 0)) by (nonlinear_arith);
}

/// Scaled multiplication, truncating toward zero and saturating.
pub fn fx_mul(a: i128, b: i128) -> (r: i128)
    requires
        fx_in(a as int),
        fx_in(b as int),
    ensures
        r == fx_mul_s(a as int, b as int),
        fx_in(r as int),
{
    let neg: bool = (a < 0) != (b < 0);
    let ma: u128 = abs_u(a);
    let mb: u128 = abs_u(b);
    proof {
        lemma_abs_mul(a as int, b as int);
    }
    let q: u128 = match ma.checked_mul(mb) {
        Some(p) => {
            proof {
                vstd::arithmetic::div_mod::lemma_div_is_ordered(
                    p as int,
                    u128::MAX as int,
                    FX_ONE as int,
                );
                assert(u128::MAX as int / (FX_ONE as int) == FX_BIG as int);
            }
            p / (FX_ONE as u128)
        },
        None => {
            proof {
                assert(ma as int * mb as int > u128::MAX as int);
                vstd::arithmetic::div_mod::lemma_div_is_ordered(
                    u128::MAX as int + 1,
                    ma as int * mb as int,
                    FX_ONE as int,
                );
                assert((u128::MAX as int + 1) / (FX_ONE as int) == FX_BIG as int + 1)
                   ;
            }
            FX_BIG as u128
        },
    };
    let m: i128 = q as i128;
    if neg {
        -m
    } else {
        m
    }
}

/// Scaled division, truncating toward zero and saturating; a zero divisor
/// saturates instead of faulting.
pub fn fx_div(a: i128, b: i128) -> (r: i128)
    requires
        fx_in(a as int),
        fx_in(b as int),
    ensures
        r == fx_div_s(a as int, b as int),
        fx_in(r as int),
{
    if b == 0 {
        if a == 0 {
            0
        } else if a > 0 {
            FX_BIG
        } else {
            -FX_BIG
        }
    } else {
        let neg: bool = (a < 0) != (b < 0);
        let ma: u128 = abs_u(a);
        let mb: u128 = abs_u(b);
        proof {
            lemma_abs_mul(a as int, FX_ONE as int);
            assert(ma as int * (FX_ONE as int) <= FX_BIG as int * (FX_ONE as int))
                by (nonlinear_arith)
                requires
                    0 <= ma as int <= FX_BIG as int,
            ;
            assert(FX_BIG as int * (FX_ONE as int) < u128::MAX as int);
        }
        let p: u128 = ma * (FX_ONE as u128);
        let q0: u128 = p / mb;
        proof {
            assert(div_t(a as int * (FX_ONE as int), b as int) == if neg {
                -(q0 as int)
            } else {
                q0 as int
            });
        }
        let q: u128 = if q0 > FX_BIG as u128 {
            FX_BIG as u128
        } else {
            q0
        };
        let m: i128 = q as i128;
        if neg {
            -m
        } else {
            m
        }
    }
}

/// Integer square root by bisection.
fn isqrt_u128(n: u128) -> (r: u128)
    ensures
        is_sqrt(n as int, r as int),
{
    if n == 0 {
        return 0;
    }
    let mut lo: u128 = 0;
    let mut hi: u128 = 340282366920938463463374607431768211455;  // u128::MAX
    proof {
        // lo^2 <= n holds since n > 0; for hi: n <= u128::MAX < (hi used below)^2
    }
    // Narrow hi to 2^64 first: (2^64)^2 = 2^128 > n always.
    hi = 18446744073709551616;  // 2^64
    proof {
        assert((hi as int) * (hi as int) > u128::MAX as int);
    }
    while hi - lo > 1
        invariant
            0 <= lo < hi <= 18446744073709551616,
            (lo as int) * (lo as int) <= n as int,
            (n as int) < (hi as int) * (hi as int),
        decreases hi - lo,
    {
        let mid: u128 = lo + (hi - lo) / 2;
        proof {
            assert(mid < hi);
            assert((mid as int) * (mid as int) < u128::MAX as int + 1) by (nonlinear_arith)
                requires
                    0 <= mid as int <= 18446744073709551615int,
            ;
        }
        if mid * mid <= n {
            lo = mid;
        } else {
            hi = mid;
        }
    }
    lo
}

/// Scaled square root: zero for non-positive input.
pub fn fx_sqrt(a: i128) -> (r: i128)
    requires
        fx_in(a as int),
    ensures
        r == fx_sqrt_s(a as int),
        fx_in(r as int),
        r >= 0,
{
    if a <= 0 {
        return 0;
    }
    proof {
        assert(a as int * (FX_ONE as int) <= FX_BIG as int * (FX_ONE as int)) by (nonlinear_arith)
            requires
                0 <= a as int <= FX_BIG as int,
        ;
        assert(FX_BIG as int * (FX_ONE as int) < u128::MAX as int);
    }
    let n: u128 = (a as u128) * (FX_ONE as u128);
    let r: u128 = isqrt_u128(n);
    proof {
        let rr = choose|x: int| is_sqrt(n as int, x);
        lemma_sqrt_unique(n as int, r as int, rr);
        assert((FX_BIG as int) * (FX_BIG as int) > u128::MAX as int);
        if r as int > FX_BIG as int {
            assert((r as int) * (r as int) >= (FX_BIG as int) * (FX_BIG as int))
                by (nonlinear_arith)
                requires
                    r as int > FX_BIG as int >= 0,
            ;
        }
    }
    r as i128
}

/// Saturation never grows a magnitude.
pub proof fn lemma_sat_abs(x: int)
    ensures
        abs_s(sat_s(x)) <= abs_s(x),
{
}

/// A magnitude bound for the scaled product.
pub proof fn lemma_fx_mul_bound(a: int, b: int, ba: int, bb: int)
    requires
        abs_s(a) <= ba,
        abs_s(b) <= bb,
    ensures
        abs_s(fx_mul_s(a, b)) <= ba * bb / (FX_ONE as int),
{
    assert(abs_s(a * b) == abs_s(a) * abs_s(b) && abs_s(a) * abs_s(b) <= ba * bb)
        by (nonlinear_arith)
        requires
            abs_s(a) <= ba,
            abs_s(b) <= bb,
            abs_s(a) == (if a >= 0 { a } else { -a }),
            abs_s(b) == (if b >= 0 { b } else { -b }),
            abs_s(a * b) == (if a * b >= 0 { a * b } else { -(a * b) }),
    ;
    vstd::arithmetic::div_mod::lemma_div_is_ordered(abs_s(a * b), ba * bb, FX_ONE as int);
    lemma_sat_abs(div_t(a * b, FX_ONE as int));
    assert(abs_s(div_t(a * b, FX_ONE as int)) == abs_s(a * b) / (FX_ONE as int));
    vstd::arithmetic::div_mod::lemma_div_pos_is_pos(abs_s(a * b), FX_ONE as int);
}

/// A magnitude bound for the scaled quotient, given a floor on the
/// divisor's magnitude.
pub proof fn lemma_fx_div_bound(a: int, b: int, ba: int, qmin: int)
    requires
        abs_s(a) <= ba,
        abs_s(b) >= qmin,
        qmin > 0,
    ensures
        abs_s(fx_div_s(a, b)) <= ba * (FX_ONE as int) / qmin,
{
    assert(b != 0);
    assert(abs_s(a * (FX_ONE as int)) == abs_s(a) * (FX_ONE as int) && abs_s(a) * (FX_ONE as int)
        <= ba * (FX_ONE as int)) by (nonlinear_arith)
        requires
            abs_s(a) <= ba,
            abs_s(a) == (if a >= 0 { a } else { -a }),
            abs_s(a * (FX_ONE as int)) == (if a * (FX_ONE as int) >= 0 {
                a * (FX_ONE as int)
            } else {
                -(a * (FX_ONE as int))
            }),
    ;
    vstd::arithmetic::div_mod::lemma_div_is_ordered_by_denominator(
        abs_s(a * (FX_ONE as int)),
        qmin,
        abs_s(b),
    );
    vstd::arithmetic::div_mod::lemma_div_is_ordered(
        abs_s(a * (FX_ONE as int)),
        ba * (FX_ONE as int),
        qmin,
    );
    lemma_sat_abs(div_t(a * (FX_ONE as int), b));
    assert(abs_s(div_t(a * (FX_ONE as int), b)) == abs_s(a * (FX_ONE as int)) / abs_s(b));
    vstd::arithmetic::div_mod::lemma_div_pos_is_pos(abs_s(a * (FX_ONE as int)), abs_s(b));
}

/// Exact truncating division of a wide value by a positive divisor.
pub fn div_wide(p: i128, q: i128) -> (r: i128)
    requires
        p != i128::MIN,
        q > 0,
    ensures
        r == div_t(p as int, q as int),
{
    let mp: u128 = abs_u(p);
    let mq: u128 = q as u128;
    let m: u128 = mp / mq;
    proof {
        vstd::arithmetic::div_mod::lemma_div_is_ordered(m as int, mp as int, 1);
        vstd::arithmetic::div_mod::lemma_div_nonincreasing(mp as int, mq as int);
    }
    let mi: i128 = m as i128;
    if p < 0 {
        -mi
    } else {
        mi
    }
}

} // verus!
