//! Integer helpers the geometry is built on: truncating division, as the
//! machine performs it, and the integer square root.

use vstd::prelude::*;

verus! {

use vstd::arithmetic::div_mod::lemma_div_is_ordered;
use vstd::arithmetic::div_mod::lemma_div_multiples_vanish;

/// Magnitude of a mathematical integer.
pub open spec fn iabs(a: int) -> int {
    if a < 0 { -a } else { a }
}

/// Quotient of `a` by `b` rounded toward zero, which is what the machine
/// division of two signed integers returns.
pub open spec fn div_trunc(a: int, b: int) -> int
    recommends
        b != 0,
{
    let q = iabs(a) / iabs(b);
    if (a < 0) != (b < 0) { -q } else { q }
}

/// `r` is the integer square root of `n`, rounded down.
pub open spec fn is_isqrt(n: int, r: int) -> bool {
    0 <= r && r * r <= n && n < (r + 1) * (r + 1)
}

/// The integer square root of `n`, rounded down.
pub open spec fn sqrt_floor(n: int) -> int {
    choose|r: int| is_isqrt(n, r)
}

/// A number has at most one rounded-down square root.
pub proof fn lemma_isqrt_unique(n: int, a: int, b: int) by (nonlinear_arith)
    requires
        is_isqrt(n, a),
        is_isqrt(n, b),
    ensures
        a == b,
{
}

/// Any witness of `is_isqrt` is the value `sqrt_floor` denotes.
pub proof fn lemma_sqrt_floor_is(n: int, r: int)
    requires
        is_isqrt(n, r),
    ensures
        sqrt_floor(n) == r,
{
    assert(exists|x: int| is_isqrt(n, x));
    lemma_isqrt_unique(n, r, sqrt_floor(n));
}

/// Every non-negative integer has a rounded-down square root.
pub proof fn lemma_isqrt_exists(n: int)
    requires
        n >= 0,
    ensures
        exists|r: int| is_isqrt(n, r),
    decreases n,
{
    if n == 0 {
        assert(is_isqrt(0, 0));
    } else {
        lemma_isqrt_exists(n - 1);
        let r = sqrt_floor(n - 1);
        assert(is_isqrt(n - 1, r));
        if (r + 1) * (r + 1) <= n {
            assert(0 <= r + 1 && (r + 1) * (r + 1) <= n && n < (r + 2) * (r + 2))
                by (nonlinear_arith)
                requires
                    0 <= r,
                    n - 1 < (r + 1) * (r + 1),
                    (r + 1) * (r + 1) <= n;
            assert(is_isqrt(n, r + 1));
        } else {
            assert(0 <= r && r * r <= n && n < (r + 1) * (r + 1)) by (nonlinear_arith)
                requires
                    0 <= r,
                    r * r <= n - 1,
                    n < (r + 1) * (r + 1);
            assert(is_isqrt(n, r));
        }
    }
}

/// Truncating division loses less than one divisor: the rescaled quotient
/// misses the numerator by less than `b`.
pub proof fn lemma_div_trunc_err(a: int, b: int)
    requires
        b > 0,
    ensures
        iabs(div_trunc(a, b) * b - a) < b,
{
    let q0 = iabs(a) / b;
    vstd::arithmetic::div_mod::lemma_fundamental_div_mod(iabs(a), b);
    vstd::arithmetic::div_mod::lemma_mod_bound(iabs(a), b);
    assert(b * q0 == q0 * b) by (nonlinear_arith);
    if a >= 0 {
        assert(div_trunc(a, b) == q0);
        assert(q0 * b - a == -(iabs(a) % b));
    } else {
        assert(div_trunc(a, b) == -q0);
        assert((-q0) * b == -(q0 * b)) by (nonlinear_arith);
        assert((-q0) * b - a == iabs(a) % b);
    }
}

/// A product of bounded factors is bounded by the product of the bounds.
pub proof fn lemma_mul_bound(a: int, b: int, ma: int, mb: int) by (nonlinear_arith)
    requires
        iabs(a) <= ma,
        iabs(b) <= mb,
    ensures
        iabs(a * b) <= ma * mb,
{
}

/// A quotient is bounded once the numerator is bounded by a multiple of the
/// denominator.
pub proof fn lemma_div_le(a: int, b: int, c: int)
    requires
        0 <= a,
        1 <= b,
        0 <= c,
        a <= b * c,
    ensures
        a / b <= c,
{
    lemma_div_is_ordered(a, b * c, b);
    lemma_div_multiples_vanish(c, b);
}

/// Dividing an exact multiple is exact.
pub proof fn lemma_div_trunc_exact(a: int, m: int)
    requires
        m > 0,
    ensures
        div_trunc(a * m, m) == a,
{
    assert(iabs(a * m) == iabs(a) * m) by (nonlinear_arith)
        requires
            m > 0;
    assert(m * iabs(a) == iabs(a) * m) by (nonlinear_arith);
    lemma_div_multiples_vanish(iabs(a), m);
    assert((a * m < 0) == (a < 0)) by (nonlinear_arith)
        requires
            m > 0;
}

/// Truncating division on machine words, pinned to `div_trunc`.
pub fn div_trunc_i64(a: i64, b: i64) -> (r: i64)
    requires
        b != 0,
        a != i64::MIN,
        b != i64::MIN,
    ensures
        r as int == div_trunc(a as int, b as int),
        iabs(r as int) <= iabs(a as int),
{
    let aa: u64 = if a < 0 { (-a) as u64 } else { a as u64 };
    let bb: u64 = if b < 0 { (-b) as u64 } else { b as u64 };
    let q: u64 = aa / bb;
    proof {
        assert(aa as int == iabs(a as int));
        assert(bb as int == iabs(b as int));
        assert(aa as int <= (bb as int) * (aa as int)) by (nonlinear_arith)
            requires 1 <= bb as int;
        lemma_div_le(aa as int, bb as int, aa as int);
    }
    let qi: i64 = q as i64;
    if (a < 0) != (b < 0) { -qi } else { qi }
}

/// Truncating division on wide machine words, pinned to `div_trunc`.
pub fn div_trunc_i128(a: i128, b: i128) -> (r: i128)
    requires
        b != 0,
        a != i128::MIN,
        b != i128::MIN,
    ensures
        r as int == div_trunc(a as int, b as int),
        iabs(r as int) <= iabs(a as int),
{
    let aa: u128 = if a < 0 { (-a) as u128 } else { a as u128 };
    let bb: u128 = if b < 0 { (-b) as u128 } else { b as u128 };
    let q: u128 = aa / bb;
    proof {
        assert(aa as int == iabs(a as int));
        assert(bb as int == iabs(b as int));
        assert(aa as int <= (bb as int) * (aa as int)) by (nonlinear_arith)
            requires 1 <= bb as int;
        lemma_div_le(aa as int, bb as int, aa as int);
    }
    let qi: i128 = q as i128;
    if (a < 0) != (b < 0) { -qi } else { qi }
}

/// Integer square root by bisection, pinned to `sqrt_floor`.
pub fn isqrt_u128(n: u128) -> (r: u128)
    requires
        n < 0x4000_0000_0000_0000_0000_0000_0000_0000u128,
    ensures
        is_isqrt(n as int, r as int),
        r as int == sqrt_floor(n as int),
        r < 0x8000_0000_0000_0000u128,
{
    let mut lo: u128 = 0;
    let mut hi: u128 = 0x8000_0000_0000_0000u128;
    while lo + 1 < hi
        invariant
            (lo as int) * (lo as int) <= n as int,
            (n as int) < (hi as int) * (hi as int),
            lo < hi,
            hi <= 0x8000_0000_0000_0000u128,
        decreases hi - lo,
    {
        let mid: u128 = lo + (hi - lo) / 2;
        proof {
            assert((mid as int) * (mid as int) <= 0x4000_0000_0000_0000_0000_0000_0000_0000int)
                by (nonlinear_arith)
                requires mid as int <= 0x7FFF_FFFF_FFFF_FFFFint;
        }
        let sq: u128 = mid * mid;
        if sq <= n {
            lo = mid;
        } else {
            hi = mid;
        }
    }
    proof {
        assert(hi == lo + 1);
        assert(is_isqrt(n as int, lo as int));
        lemma_sqrt_floor_is(n as int, lo as int);
    }
    lo
}

} // verus!
