//! Three-component fixed-point vectors and the exact integer formulas the
//! geometry states its contracts over.

use vstd::prelude::*;

verus! {

use crate::SCALE;
use crate::math::div_trunc;
use crate::math::div_trunc_i128;
use crate::math::iabs;
use crate::math::is_isqrt;
use crate::math::isqrt_u128;
use crate::math::lemma_div_le;
use crate::math::lemma_mul_bound;
use crate::math::sqrt_floor;

/// A point, direction or color; each component is a real scaled by `SCALE`.
#[derive(Clone, Copy, PartialEq, Eq, Structural, Debug)]
pub struct Vec3 {
    pub x: i64,
    pub y: i64,
    pub z: i64,
}

/// Every component lies in `[-m, m]`.
pub open spec fn bounded(v: Vec3, m: int) -> bool {
    &&& -m <= v.x <= m
    &&& -m <= v.y <= m
    &&& -m <= v.z <= m
}

/// The mathematical dot product of the stored components.
pub open spec fn dot3(a: Vec3, b: Vec3) -> int {
    a.x * b.x + a.y * b.y + a.z * b.z
}

/// The zero vector.
pub open spec fn zero_v() -> Vec3 {
    Vec3 { x: 0, y: 0, z: 0 }
}

/// Componentwise negation, stated over the stored components.
pub open spec fn neg_v(v: Vec3) -> Vec3 {
    Vec3 { x: (-v.x) as i64, y: (-v.y) as i64, z: (-v.z) as i64 }
}

/// The cross product, stated over the stored components.
pub open spec fn cross_v(a: Vec3, b: Vec3) -> Vec3 {
    Vec3 {
        x: (a.y * b.z - a.z * b.y) as i64,
        y: (a.z * b.x - a.x * b.z) as i64,
        z: (a.x * b.y - a.y * b.x) as i64,
    }
}

/// Normalization to length `SCALE`, or nothing for a degenerate vector.
pub open spec fn normalize_spec(v: Vec3) -> Option<Vec3> {
    let l = sqrt_floor(dot3(v, v));
    if l <= 0 {
        None
    } else {
        Some(Vec3 {
            x: div_trunc(v.x * SCALE, l) as i64,
            y: div_trunc(v.y * SCALE, l) as i64,
            z: div_trunc(v.z * SCALE, l) as i64,
        })
    }
}

/// A dot product of bounded vectors is bounded.
pub proof fn lemma_dot3_bound(a: Vec3, b: Vec3, ma: int, mb: int)
    requires
        bounded(a, ma),
        bounded(b, mb),
        0 <= ma,
        0 <= mb,
    ensures
        iabs(dot3(a, b)) <= 3 * (ma * mb),
{
    lemma_mul_bound(a.x as int, b.x as int, ma, mb);
    lemma_mul_bound(a.y as int, b.y as int, ma, mb);
    lemma_mul_bound(a.z as int, b.z as int, ma, mb);
}

/// A vector's dot product with itself is never negative.
pub proof fn lemma_dot3_self_nonneg(a: Vec3)
    ensures
        dot3(a, a) >= 0,
{
    assert((a.x as int) * (a.x as int) >= 0) by (nonlinear_arith);
    assert((a.y as int) * (a.y as int) >= 0) by (nonlinear_arith);
    assert((a.z as int) * (a.z as int) >= 0) by (nonlinear_arith);
}

/// Normalization moves a cosine only by rounding: against any unit-bounded
/// vector `n`, the normalized direction's cosine (scaled by the original
/// length) stays within three rounding quanta of the exact one.
pub proof fn lemma_normalize_cosine_bound(v: Vec3, n: Vec3)
    requires
        bounded(v, 0x0100_0000_0000_0000),
        bounded(n, SCALE as int),
        normalize_spec(v) is Some,
    ensures
        ({
            let l = sqrt_floor(dot3(v, v));
            let u = normalize_spec(v)->0;
            l >= 1 && iabs(l * dot3(u, n) - SCALE * dot3(v, n)) <= 3 * (l * SCALE)
        }),
{
    let n2 = dot3(v, v);
    lemma_dot3_self_nonneg(v);
    crate::math::lemma_isqrt_exists(n2);
    let l = sqrt_floor(n2);
    assert(is_isqrt(n2, l));
    assert(l >= 1);
    assert(iabs(v.x as int) <= l && iabs(v.y as int) <= l && iabs(v.z as int) <= l)
        by (nonlinear_arith)
        requires
            (v.x as int) * (v.x as int) + (v.y as int) * (v.y as int) + (v.z as int) * (
            v.z as int) == n2,
            0 <= l,
            n2 < (l + 1) * (l + 1);
    lemma_mul_bound(v.x as int, SCALE as int, l, SCALE as int);
    lemma_mul_bound(v.y as int, SCALE as int, l, SCALE as int);
    lemma_mul_bound(v.z as int, SCALE as int, l, SCALE as int);
    lemma_div_le(iabs(v.x * SCALE), l, SCALE as int);
    lemma_div_le(iabs(v.y * SCALE), l, SCALE as int);
    lemma_div_le(iabs(v.z * SCALE), l, SCALE as int);
    let u = normalize_spec(v)->0;
    assert(u.x as int == div_trunc(v.x * SCALE, l));
    assert(u.y as int == div_trunc(v.y * SCALE, l));
    assert(u.z as int == div_trunc(v.z * SCALE, l));
    crate::math::lemma_div_trunc_err(v.x * SCALE, l);
    crate::math::lemma_div_trunc_err(v.y * SCALE, l);
    crate::math::lemma_div_trunc_err(v.z * SCALE, l);
    let ex = u.x * l - v.x * SCALE;
    let ey = u.y * l - v.y * SCALE;
    let ez = u.z * l - v.z * SCALE;
    assert(iabs(ex) <= l && iabs(ey) <= l && iabs(ez) <= l);
    lemma_mul_bound(ex, n.x as int, l, SCALE as int);
    lemma_mul_bound(ey, n.y as int, l, SCALE as int);
    lemma_mul_bound(ez, n.z as int, l, SCALE as int);
    assert(l * (u.x * n.x) == (u.x * l) * n.x) by (nonlinear_arith);
    assert(l * (u.y * n.y) == (u.y * l) * n.y) by (nonlinear_arith);
    assert(l * (u.z * n.z) == (u.z * l) * n.z) by (nonlinear_arith);
    assert(l * (u.x * n.x + u.y * n.y + u.z * n.z) == l * (u.x * n.x) + l * (u.y * n.y) + l * (
    u.z * n.z)) by (nonlinear_arith);
    assert(l * dot3(u, n) == (u.x * l) * n.x + (u.y * l) * n.y + (u.z * l) * n.z);
    assert(SCALE * (v.x * n.x) == (v.x * SCALE) * n.x) by (nonlinear_arith);
    assert(SCALE * (v.y * n.y) == (v.y * SCALE) * n.y) by (nonlinear_arith);
    assert(SCALE * (v.z * n.z) == (v.z * SCALE) * n.z) by (nonlinear_arith);
    assert(SCALE * (v.x * n.x + v.y * n.y + v.z * n.z) == SCALE * (v.x * n.x) + SCALE * (v.y
        * n.y) + SCALE * (v.z * n.z)) by (nonlinear_arith);
    assert(SCALE * dot3(v, n) == (v.x * SCALE) * n.x + (v.y * SCALE) * n.y + (v.z * SCALE) * n.z);
    assert((u.x * l) * n.x - (v.x * SCALE) * n.x == ex * n.x) by (nonlinear_arith)
        requires
            ex == u.x * l - v.x * SCALE;
    assert((u.y * l) * n.y - (v.y * SCALE) * n.y == ey * n.y) by (nonlinear_arith)
        requires
            ey == u.y * l - v.y * SCALE;
    assert((u.z * l) * n.z - (v.z * SCALE) * n.z == ez * n.z) by (nonlinear_arith)
        requires
            ez == u.z * l - v.z * SCALE;
    assert(l * dot3(u, n) - SCALE * dot3(v, n) == ex * n.x + ey * n.y + ez * n.z);
}

pub fn v3(x: i64, y: i64, z: i64) -> (r: Vec3)
    ensures
        r == (Vec3 { x, y, z }),
{
    Vec3 { x, y, z }
}

pub fn add3(a: Vec3, b: Vec3) -> (r: Vec3)
    requires
        i64::MIN <= a.x + b.x <= i64::MAX,
        i64::MIN <= a.y + b.y <= i64::MAX,
        i64::MIN <= a.z + b.z <= i64::MAX,
    ensures
        r.x == a.x + b.x,
        r.y == a.y + b.y,
        r.z == a.z + b.z,
{
    Vec3 { x: a.x + b.x, y: a.y + b.y, z: a.z + b.z }
}

pub fn sub3(a: Vec3, b: Vec3) -> (r: Vec3)
    requires
        i64::MIN <= a.x - b.x <= i64::MAX,
        i64::MIN <= a.y - b.y <= i64::MAX,
        i64::MIN <= a.z - b.z <= i64::MAX,
    ensures
        r.x == a.x - b.x,
        r.y == a.y - b.y,
        r.z == a.z - b.z,
{
    Vec3 { x: a.x - b.x, y: a.y - b.y, z: a.z - b.z }
}

pub fn neg3(v: Vec3) -> (r: Vec3)
    requires
        v.x != i64::MIN,
        v.y != i64::MIN,
        v.z != i64::MIN,
    ensures
        r.x == -v.x,
        r.y == -v.y,
        r.z == -v.z,
{
    Vec3 { x: -v.x, y: -v.y, z: -v.z }
}

pub fn scale3(v: Vec3, k: i64) -> (r: Vec3)
    requires
        iabs(v.x * k) <= i64::MAX,
        iabs(v.y * k) <= i64::MAX,
        iabs(v.z * k) <= i64::MAX,
    ensures
        r.x == v.x * k,
        r.y == v.y * k,
        r.z == v.z * k,
{
    Vec3 { x: v.x * k, y: v.y * k, z: v.z * k }
}

/// Componentwise `v * k / d`, the fixed-point scaling step.
pub fn mul_div3(v: Vec3, k: i64, d: i64) -> (r: Vec3)
    requires
        d != 0,
        d != i64::MIN,
        iabs(v.x * k) < i64::MAX,
        iabs(v.y * k) < i64::MAX,
        iabs(v.z * k) < i64::MAX,
    ensures
        r.x as int == div_trunc(v.x * k, d as int),
        r.y as int == div_trunc(v.y * k, d as int),
        r.z as int == div_trunc(v.z * k, d as int),
        iabs(r.x as int) <= iabs(v.x * k),
        iabs(r.y as int) <= iabs(v.y * k),
        iabs(r.z as int) <= iabs(v.z * k),
{
    Vec3 {
        x: crate::math::div_trunc_i64(v.x * k, d),
        y: crate::math::div_trunc_i64(v.y * k, d),
        z: crate::math::div_trunc_i64(v.z * k, d),
    }
}

pub fn dot3e(a: Vec3, b: Vec3) -> (r: i64)
    requires
        bounded(a, 0x4000_0000),
        bounded(b, 0x4000_0000),
    ensures
        r as int == dot3(a, b),
        iabs(r as int) <= 3 * 0x4000_0000 * 0x4000_0000,
{
    proof {
        lemma_mul_bound(a.x as int, b.x as int, 0x4000_0000, 0x4000_0000);
        lemma_mul_bound(a.y as int, b.y as int, 0x4000_0000, 0x4000_0000);
        lemma_mul_bound(a.z as int, b.z as int, 0x4000_0000, 0x4000_0000);
    }
    a.x * b.x + a.y * b.y + a.z * b.z
}

/// Dot product computed in wide words, for vectors past the narrow bound.
pub fn dot3_i128(a: Vec3, b: Vec3) -> (r: i128)
    requires
        bounded(a, 0x4000_0000_0000_0000),
        bounded(b, 0x4000_0000_0000_0000),
    ensures
        r as int == dot3(a, b),
{
    proof {
        lemma_mul_bound(a.x as int, b.x as int, 0x4000_0000_0000_0000, 0x4000_0000_0000_0000);
        lemma_mul_bound(a.y as int, b.y as int, 0x4000_0000_0000_0000, 0x4000_0000_0000_0000);
        lemma_mul_bound(a.z as int, b.z as int, 0x4000_0000_0000_0000, 0x4000_0000_0000_0000);
    }
    (a.x as i128) * (b.x as i128) + (a.y as i128) * (b.y as i128) + (a.z as i128) * (b.z as i128)
}

pub fn cross3(a: Vec3, b: Vec3) -> (r: Vec3)
    requires
        bounded(a, 0x4000_0000),
        bounded(b, 0x4000_0000),
    ensures
        r.x == a.y * b.z - a.z * b.y,
        r.y == a.z * b.x - a.x * b.z,
        r.z == a.x * b.y - a.y * b.x,
{
    proof {
        lemma_mul_bound(a.y as int, b.z as int, 0x4000_0000, 0x4000_0000);
        lemma_mul_bound(a.z as int, b.y as int, 0x4000_0000, 0x4000_0000);
        lemma_mul_bound(a.z as int, b.x as int, 0x4000_0000, 0x4000_0000);
        lemma_mul_bound(a.x as int, b.z as int, 0x4000_0000, 0x4000_0000);
        lemma_mul_bound(a.x as int, b.y as int, 0x4000_0000, 0x4000_0000);
        lemma_mul_bound(a.y as int, b.x as int, 0x4000_0000, 0x4000_0000);
    }
    Vec3 {
        x: a.y * b.z - a.z * b.y,
        y: a.z * b.x - a.x * b.z,
        z: a.x * b.y - a.y * b.x,
    }
}

/// Componentwise product rescaled by `SCALE`: the product of two colors.
pub fn comp_mul(a: Vec3, b: Vec3) -> (r: Vec3)
    requires
        bounded(a, 0x4000_0000),
        bounded(b, 0x4000_0000),
    ensures
        r.x as int == div_trunc(a.x * b.x, SCALE as int),
        r.y as int == div_trunc(a.y * b.y, SCALE as int),
        r.z as int == div_trunc(a.z * b.z, SCALE as int),
{
    proof {
        lemma_mul_bound(a.x as int, b.x as int, 0x4000_0000, 0x4000_0000);
        lemma_mul_bound(a.y as int, b.y as int, 0x4000_0000, 0x4000_0000);
        lemma_mul_bound(a.z as int, b.z as int, 0x4000_0000, 0x4000_0000);
    }
    Vec3 {
        x: crate::math::div_trunc_i64(a.x * b.x, SCALE),
        y: crate::math::div_trunc_i64(a.y * b.y, SCALE),
        z: crate::math::div_trunc_i64(a.z * b.z, SCALE),
    }
}

/// Rescale a vector to length `SCALE`; a degenerate vector yields nothing.
pub fn normalize_dir(v: Vec3) -> (r: Option<Vec3>)
    requires
        bounded(v, 0x0100_0000_0000_0000),
    ensures
        r == normalize_spec(v),
        r is Some ==> bounded(r->0, SCALE as int),
{
    let n2: i128 = dot3_i128(v, v);
    proof {
        lemma_mul_bound(v.x as int, v.x as int, 0x0100_0000_0000_0000, 0x0100_0000_0000_0000);
        lemma_mul_bound(v.y as int, v.y as int, 0x0100_0000_0000_0000, 0x0100_0000_0000_0000);
        lemma_mul_bound(v.z as int, v.z as int, 0x0100_0000_0000_0000, 0x0100_0000_0000_0000);
        assert(v.x * v.x >= 0) by (nonlinear_arith);
        assert(v.y * v.y >= 0) by (nonlinear_arith);
        assert(v.z * v.z >= 0) by (nonlinear_arith);
    }
    let l128: u128 = isqrt_u128(n2 as u128);
    if l128 == 0 {
        return None;
    }
    let l: i128 = l128 as i128;
    proof {
        let li = l as int;
        let n2i = n2 as int;
        assert(is_isqrt(n2i, li));
        assert(iabs(v.x as int) <= li && iabs(v.y as int) <= li && iabs(v.z as int) <= li)
            by (nonlinear_arith)
            requires
                (v.x as int) * (v.x as int) + (v.y as int) * (v.y as int)
                    + (v.z as int) * (v.z as int) == n2i,
                0 <= li,
                n2i < (li + 1) * (li + 1);
        lemma_mul_bound(v.x as int, SCALE as int, li, SCALE as int);
        lemma_mul_bound(v.y as int, SCALE as int, li, SCALE as int);
        lemma_mul_bound(v.z as int, SCALE as int, li, SCALE as int);
        lemma_div_le(iabs(v.x * SCALE), li, SCALE as int);
        lemma_div_le(iabs(v.y * SCALE), li, SCALE as int);
        lemma_div_le(iabs(v.z * SCALE), li, SCALE as int);
    }
    let rx: i128 = div_trunc_i128((v.x as i128) * (SCALE as i128), l);
    let ry: i128 = div_trunc_i128((v.y as i128) * (SCALE as i128), l);
    let rz: i128 = div_trunc_i128((v.z as i128) * (SCALE as i128), l);
    Some(Vec3 { x: rx as i64, y: ry as i64, z: rz as i64 })
}

} // verus!
