//! Orthonormal basis about a unit normal: two tangents whose unnormalized
//! forms are exactly orthogonal to the normal and to each other's source.

use vstd::prelude::*;

verus! {

use crate::SCALE;
use crate::math::div_trunc;
use crate::math::lemma_mul_bound;
use crate::vec3::Vec3;
use crate::vec3::bounded;
use crate::vec3::cross_v;
use crate::vec3::cross3;
use crate::vec3::dot3;
use crate::vec3::normalize_dir;
use crate::vec3::normalize_spec;

/// The helper axis used to seed the basis: the world up-axis unless the
/// normal lies on it.
pub open spec fn seed_axis(n: Vec3) -> Vec3 {
    if n.x != 0 || n.y != 0 {
        Vec3 { x: 0, y: 0, z: SCALE }
    } else {
        Vec3 { x: SCALE, y: 0, z: 0 }
    }
}

/// The two unit tangents, or nothing when the normal degenerates.
pub open spec fn uvw_spec(n: Vec3) -> Option<(Vec3, Vec3)> {
    let ur = cross_v(n, seed_axis(n));
    match normalize_spec(ur) {
        None => None,
        Some(u) => match normalize_spec(cross_v(n, u)) {
            None => None,
            Some(v) => Some((u, v)),
        },
    }
}

/// A cross product is exactly orthogonal to both factors.
pub proof fn lemma_cross_orthogonal(a: Vec3, b: Vec3)
    requires
        bounded(a, 0x4000_0000),
        bounded(b, 0x4000_0000),
    ensures
        dot3(cross_v(a, b), a) == 0,
        dot3(cross_v(a, b), b) == 0,
{
    lemma_mul_bound(a.y as int, b.z as int, 0x4000_0000, 0x4000_0000);
    lemma_mul_bound(a.z as int, b.y as int, 0x4000_0000, 0x4000_0000);
    lemma_mul_bound(a.z as int, b.x as int, 0x4000_0000, 0x4000_0000);
    lemma_mul_bound(a.x as int, b.z as int, 0x4000_0000, 0x4000_0000);
    lemma_mul_bound(a.x as int, b.y as int, 0x4000_0000, 0x4000_0000);
    lemma_mul_bound(a.y as int, b.x as int, 0x4000_0000, 0x4000_0000);
    let c = cross_v(a, b);
    assert(c.x == a.y * b.z - a.z * b.y);
    assert(c.y == a.z * b.x - a.x * b.z);
    assert(c.z == a.x * b.y - a.y * b.x);
    assert((a.y * b.z - a.z * b.y) * a.x + (a.z * b.x - a.x * b.z) * a.y + (a.x * b.y - a.y * b.x)
        * a.z == 0) by (nonlinear_arith);
    assert((a.y * b.z - a.z * b.y) * b.x + (a.z * b.x - a.x * b.z) * b.y + (a.x * b.y - a.y * b.x)
        * b.z == 0) by (nonlinear_arith);
}

/// Builds the local frame about `n`.
pub fn uvw_basis(n: Vec3) -> (res: Option<(Vec3, Vec3)>)
    requires
        bounded(n, SCALE as int),
    ensures
        res == uvw_spec(n),
        res matches Some(p) ==> bounded(p.0, SCALE as int) && bounded(p.1, SCALE as int),
{
    let axis: Vec3 = if n.x != 0 || n.y != 0 {
        Vec3 { x: 0, y: 0, z: SCALE }
    } else {
        Vec3 { x: SCALE, y: 0, z: 0 }
    };
    let ur = cross3(n, axis);
    proof {
        lemma_mul_bound(n.y as int, axis.z as int, SCALE as int, SCALE as int);
        lemma_mul_bound(n.z as int, axis.y as int, SCALE as int, SCALE as int);
        lemma_mul_bound(n.z as int, axis.x as int, SCALE as int, SCALE as int);
        lemma_mul_bound(n.x as int, axis.z as int, SCALE as int, SCALE as int);
        lemma_mul_bound(n.x as int, axis.y as int, SCALE as int, SCALE as int);
        lemma_mul_bound(n.y as int, axis.x as int, SCALE as int, SCALE as int);
    }
    match normalize_dir(ur) {
        None => None,
        Some(u) => {
            let vr = cross3(n, u);
            proof {
                lemma_mul_bound(n.y as int, u.z as int, SCALE as int, SCALE as int);
                lemma_mul_bound(n.z as int, u.y as int, SCALE as int, SCALE as int);
                lemma_mul_bound(n.z as int, u.x as int, SCALE as int, SCALE as int);
                lemma_mul_bound(n.x as int, u.z as int, SCALE as int, SCALE as int);
                lemma_mul_bound(n.x as int, u.y as int, SCALE as int, SCALE as int);
                lemma_mul_bound(n.y as int, u.x as int, SCALE as int, SCALE as int);
            }
            match normalize_dir(vr) {
                None => None,
                Some(v) => Some((u, v)),
            }
        },
    }
}

/// A local-frame vector expressed in world space, the exact integer way.
pub open spec fn to_uvw_spec(lv: Vec3, u: Vec3, v: Vec3, w: Vec3) -> Vec3 {
    Vec3 {
        x: div_trunc(lv.x * u.x + lv.y * v.x + lv.z * w.x, SCALE as int) as i64,
        y: div_trunc(lv.x * u.y + lv.y * v.y + lv.z * w.y, SCALE as int) as i64,
        z: div_trunc(lv.x * u.z + lv.y * v.z + lv.z * w.z, SCALE as int) as i64,
    }
}

/// Transforms a local-frame vector into world space.
pub fn to_uvw_basis(lv: Vec3, u: Vec3, v: Vec3, w: Vec3) -> (r: Vec3)
    requires
        bounded(lv, SCALE as int),
        bounded(u, SCALE as int),
        bounded(v, SCALE as int),
        bounded(w, SCALE as int),
    ensures
        r == to_uvw_spec(lv, u, v, w),
        bounded(r, 3 * SCALE as int),
{
    proof {
        lemma_mul_bound(lv.x as int, u.x as int, SCALE as int, SCALE as int);
        lemma_mul_bound(lv.y as int, v.x as int, SCALE as int, SCALE as int);
        lemma_mul_bound(lv.z as int, w.x as int, SCALE as int, SCALE as int);
        lemma_mul_bound(lv.x as int, u.y as int, SCALE as int, SCALE as int);
        lemma_mul_bound(lv.y as int, v.y as int, SCALE as int, SCALE as int);
        lemma_mul_bound(lv.z as int, w.y as int, SCALE as int, SCALE as int);
        lemma_mul_bound(lv.x as int, u.z as int, SCALE as int, SCALE as int);
        lemma_mul_bound(lv.y as int, v.z as int, SCALE as int, SCALE as int);
        lemma_mul_bound(lv.z as int, w.z as int, SCALE as int, SCALE as int);
        crate::math::lemma_div_le(
            crate::math::iabs(lv.x * u.x + lv.y * v.x + lv.z * w.x),
            SCALE as int,
            3 * SCALE as int,
        );
        crate::math::lemma_div_le(
            crate::math::iabs(lv.x * u.y + lv.y * v.y + lv.z * w.y),
            SCALE as int,
            3 * SCALE as int,
        );
        crate::math::lemma_div_le(
            crate::math::iabs(lv.x * u.z + lv.y * v.z + lv.z * w.z),
            SCALE as int,
            3 * SCALE as int,
        );
    }
    Vec3 {
        x: crate::math::div_trunc_i64(lv.x * u.x + lv.y * v.x + lv.z * w.x, SCALE),
        y: crate::math::div_trunc_i64(lv.x * u.y + lv.y * v.y + lv.z * w.y, SCALE),
        z: crate::math::div_trunc_i64(lv.x * u.z + lv.y * v.z + lv.z * w.z, SCALE),
    }
}

} // verus!
