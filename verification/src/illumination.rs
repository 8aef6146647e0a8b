//! Closed-form shading: specular reflection, Snell-Descartes refraction with
//! the total-internal-reflection fallback, and the Phong illumination model.

use vstd::prelude::*;

verus! {

use crate::MAX_DEPTH;
use crate::SCALE;
use crate::hit::Hit;
use crate::hit::hit_wf;
use crate::math::div_trunc;
use crate::math::lemma_div_le;
use crate::math::lemma_mul_bound;
use crate::math::sqrt_floor;
use crate::ray::Ray;
use crate::ray::ray_wf;
use crate::scene::Scene;
use crate::vec3::Vec3;
use crate::vec3::bounded;
use crate::vec3::dot3;
use crate::vec3::dot3e;
use crate::vec3::lemma_dot3_bound;
use crate::vec3::neg_v;
use crate::vec3::normalize_dir;
use crate::vec3::normalize_spec;

/// The unnormalized mirror image of `d` about `n`, with every term
/// multiplied through by `dot3(n, n)` so that it stays an exact integer:
/// `reflect_vec(d, n) = (n.n) d - 2 (d.n) n`.
pub open spec fn reflect_vec(d: Vec3, n: Vec3) -> Vec3 {
    let nn = dot3(n, n);
    let dn = dot3(d, n);
    Vec3 {
        x: (nn * d.x - 2 * dn * n.x) as i64,
        y: (nn * d.y - 2 * dn * n.y) as i64,
        z: (nn * d.z - 2 * dn * n.z) as i64,
    }
}

/// The unit mirror direction, or nothing when it degenerates to zero.
pub open spec fn reflect_dir_spec(d: Vec3, n: Vec3) -> Option<Vec3> {
    normalize_spec(reflect_vec(d, n))
}

/// Mirror reflection keeps the angle to the normal: the reflected direction
/// meets `n` at the negated incidence cosine, scaled by the exact squared
/// length of `n`.
pub proof fn lemma_reflect_angle(d: Vec3, n: Vec3)
    requires
        bounded(d, SCALE as int),
        bounded(n, SCALE as int),
    ensures
        dot3(reflect_vec(d, n), n) == -(dot3(d, n) * dot3(n, n)),
{
    let nn = dot3(n, n);
    let dn = dot3(d, n);
    lemma_dot3_bound(n, n, SCALE as int, SCALE as int);
    lemma_dot3_bound(d, n, SCALE as int, SCALE as int);
    lemma_mul_bound(nn, d.x as int, 3 * 4096 * 4096int, SCALE as int);
    lemma_mul_bound(nn, d.y as int, 3 * 4096 * 4096int, SCALE as int);
    lemma_mul_bound(nn, d.z as int, 3 * 4096 * 4096int, SCALE as int);
    lemma_mul_bound(2 * dn, n.x as int, 6 * 4096 * 4096int, SCALE as int);
    lemma_mul_bound(2 * dn, n.y as int, 6 * 4096 * 4096int, SCALE as int);
    lemma_mul_bound(2 * dn, n.z as int, 6 * 4096 * 4096int, SCALE as int);
    let r = reflect_vec(d, n);
    assert(r.x == nn * d.x - 2 * dn * n.x);
    assert(r.y == nn * d.y - 2 * dn * n.y);
    assert(r.z == nn * d.z - 2 * dn * n.z);
    assert((nn * d.x - 2 * dn * n.x) * n.x == nn * (d.x * n.x) - 2 * dn * (n.x * n.x))
        by (nonlinear_arith);
    assert((nn * d.y - 2 * dn * n.y) * n.y == nn * (d.y * n.y) - 2 * dn * (n.y * n.y))
        by (nonlinear_arith);
    assert((nn * d.z - 2 * dn * n.z) * n.z == nn * (d.z * n.z) - 2 * dn * (n.z * n.z))
        by (nonlinear_arith);
    assert(nn * (d.x * n.x) + nn * (d.y * n.y) + nn * (d.z * n.z) == nn * dn) by (nonlinear_arith)
        requires
            dn == d.x * n.x + d.y * n.y + d.z * n.z;
    assert(2 * dn * (n.x * n.x) + 2 * dn * (n.y * n.y) + 2 * dn * (n.z * n.z) == 2 * (dn * nn))
        by (nonlinear_arith)
        requires
            nn == n.x * n.x + n.y * n.y + n.z * n.z;
    assert(nn * dn == dn * nn) by (nonlinear_arith);
}

/// For a unit normal the law reads exactly as "angle in equals angle out":
/// the reflected cosine is the negated incident cosine.
pub proof fn lemma_mirror_angle_unit(d: Vec3, n: Vec3)
    requires
        bounded(d, SCALE as int),
        bounded(n, SCALE as int),
        dot3(n, n) == SCALE * SCALE,
    ensures
        dot3(reflect_vec(d, n), n) == -(SCALE * SCALE) * dot3(d, n),
{
    lemma_reflect_angle(d, n);
    let dn = dot3(d, n);
    assert(dot3(reflect_vec(d, n), n) == -(dn * (SCALE * SCALE)));
    assert(dn * (SCALE * SCALE) == (SCALE * SCALE) * dn) by (nonlinear_arith);
    assert((-(SCALE * SCALE)) * dn == -((SCALE * SCALE) * dn)) by (nonlinear_arith);
}

/// The incidence law survives normalization within rounding: on the unit
/// mirror direction, the cosine against a unit normal (scaled by the
/// unnormalized reflection's length `l`) differs from the exact negated
/// incident cosine (scaled by `SCALE^3`) by at most `3 * l * SCALE`.
pub proof fn lemma_mirror_unit_cosine_bound(d: Vec3, n: Vec3)
    requires
        bounded(d, SCALE as int),
        bounded(n, SCALE as int),
        dot3(n, n) == SCALE * SCALE,
        reflect_dir_spec(d, n) is Some,
    ensures
        ({
            let rv = reflect_vec(d, n);
            let l = sqrt_floor(dot3(rv, rv));
            let u = reflect_dir_spec(d, n)->0;
            l >= 1 && crate::math::iabs(
                l * dot3(u, n) + SCALE * ((SCALE * SCALE) * dot3(d, n)),
            ) <= 3 * (l * SCALE)
        }),
{
    let nn = dot3(n, n);
    let dn = dot3(d, n);
    lemma_dot3_bound(n, n, SCALE as int, SCALE as int);
    lemma_dot3_bound(d, n, SCALE as int, SCALE as int);
    lemma_mul_bound(nn, d.x as int, 3 * 4096 * 4096int, SCALE as int);
    lemma_mul_bound(nn, d.y as int, 3 * 4096 * 4096int, SCALE as int);
    lemma_mul_bound(nn, d.z as int, 3 * 4096 * 4096int, SCALE as int);
    lemma_mul_bound(2 * dn, n.x as int, 6 * 4096 * 4096int, SCALE as int);
    lemma_mul_bound(2 * dn, n.y as int, 6 * 4096 * 4096int, SCALE as int);
    lemma_mul_bound(2 * dn, n.z as int, 6 * 4096 * 4096int, SCALE as int);
    let rv = reflect_vec(d, n);
    assert(bounded(rv, 0x0100_0000_0000_0000));
    crate::vec3::lemma_normalize_cosine_bound(rv, n);
    lemma_mirror_angle_unit(d, n);
    assert(SCALE * ((-(SCALE * SCALE)) * dn) == -(SCALE * ((SCALE * SCALE) * dn)))
        by (nonlinear_arith);
}

/// Exact exec counterpart of `reflect_vec` followed by normalization.
pub fn reflect_dir(d: Vec3, n: Vec3) -> (res: Option<Vec3>)
    requires
        bounded(d, SCALE as int),
        bounded(n, SCALE as int),
    ensures
        res == reflect_dir_spec(d, n),
        res matches Some(u) ==> bounded(u, SCALE as int),
{
    let nn: i64 = dot3e(n, n);
    let dn: i64 = dot3e(d, n);
    proof {
        lemma_dot3_bound(n, n, SCALE as int, SCALE as int);
        lemma_dot3_bound(d, n, SCALE as int, SCALE as int);
        lemma_mul_bound(nn as int, d.x as int, 3 * 4096 * 4096int, SCALE as int);
        lemma_mul_bound(nn as int, d.y as int, 3 * 4096 * 4096int, SCALE as int);
        lemma_mul_bound(nn as int, d.z as int, 3 * 4096 * 4096int, SCALE as int);
        lemma_mul_bound(2 * (dn as int), n.x as int, 6 * 4096 * 4096int, SCALE as int);
        lemma_mul_bound(2 * (dn as int), n.y as int, 6 * 4096 * 4096int, SCALE as int);
        lemma_mul_bound(2 * (dn as int), n.z as int, 6 * 4096 * 4096int, SCALE as int);
    }
    let rv = Vec3 {
        x: nn * d.x - 2 * dn * n.x,
        y: nn * d.y - 2 * dn * n.y,
        z: nn * d.z - 2 * dn * n.z,
    };
    normalize_dir(rv)
}

/// Specular reflection of the incoming ray at a hit, one bounce deeper.
pub fn reflect_ray(h: &Hit, r: &Ray) -> (res: Option<Ray>)
    requires
        hit_wf(*h),
        ray_wf(*r),
        r.depth <= MAX_DEPTH,
    ensures
        res == match reflect_dir_spec(r.dir, h.n) {
            None => None::<Ray>,
            Some(dir) => Some(Ray { origin: h.p, dir, depth: (r.depth + 1) as usize }),
        },
        res matches Some(nr) ==> ray_wf(nr) && nr.depth == r.depth + 1,
{
    match reflect_dir(r.dir, h.n) {
        None => None,
        Some(dir) => Some(Ray::new(h.p, dir, r.depth)),
    }
}

/// The direction a glass surface sends the ray on: the Snell-Descartes
/// transmitted direction, or the mirror direction past the critical angle.
/// All terms are multiplied through by `ETA_DEN * SCALE^3` so the formula
/// stays exact until the final normalization.
pub open spec fn refract_dir_spec(d: Vec3, n: Vec3) -> Option<Vec3> {
    let inside = dot3(n, d) > 0;
    let norm = if inside {
        neg_v(n)
    } else {
        n
    };
    let en: int = if inside {
        crate::ETA_NUM as int
    } else {
        crate::ETA_DEN as int
    };
    let ed: int = if inside {
        crate::ETA_DEN as int
    } else {
        crate::ETA_NUM as int
    };
    match normalize_spec(d) {
        None => None,
        Some(up) => {
            let c0 = dot3(norm, neg_v(up));
            let cm = if c0 > SCALE * SCALE {
                SCALE * SCALE
            } else {
                c0
            };
            let s4 = SCALE * SCALE * SCALE * SCALE;
            if (s4 - cm * cm) * en * en > ed * ed * s4 {
                reflect_dir_spec(d, n)
            } else {
                let w = sqrt_floor(ed * ed * s4 - (s4 - cm * cm) * en * en);
                let dd = Vec3 {
                    x: (en * SCALE * SCALE * up.x + norm.x * (en * cm - w)) as i64,
                    y: (en * SCALE * SCALE * up.y + norm.y * (en * cm - w)) as i64,
                    z: (en * SCALE * SCALE * up.z + norm.z * (en * cm - w)) as i64,
                };
                normalize_spec(dd)
            }
        },
    }
}

/// The incidence lies beyond the critical angle: the fixed-point form of
/// `sin^2(out) > 1` under the applicable index ratio.
pub open spec fn tir_condition(d: Vec3, n: Vec3) -> bool {
    match normalize_spec(d) {
        None => false,
        Some(up) => {
            let inside = dot3(n, d) > 0;
            let norm = if inside {
                neg_v(n)
            } else {
                n
            };
            let en: int = if inside {
                crate::ETA_NUM as int
            } else {
                crate::ETA_DEN as int
            };
            let ed: int = if inside {
                crate::ETA_DEN as int
            } else {
                crate::ETA_NUM as int
            };
            let c0 = dot3(norm, neg_v(up));
            let cm = if c0 > SCALE * SCALE {
                SCALE * SCALE
            } else {
                c0
            };
            let s4 = SCALE * SCALE * SCALE * SCALE;
            (s4 - cm * cm) * en * en > ed * ed * s4
        },
    }
}

/// Past the critical angle glass reflects like a mirror: no transmitted
/// direction is produced.
pub proof fn lemma_glass_beyond_critical_angle(d: Vec3, n: Vec3)
    requires
        tir_condition(d, n),
    ensures
        refract_dir_spec(d, n) == reflect_dir_spec(d, n),
{
}

/// At normal incidence (`d` exactly opposite a unit normal) glass transmits
/// the ray unchanged: the refracted direction is collinear with `d`.
pub proof fn lemma_glass_normal_incidence(d: Vec3, n: Vec3)
    requires
        bounded(n, SCALE as int),
        dot3(n, n) == SCALE * SCALE,
        d == neg_v(n),
    ensures
        refract_dir_spec(d, n) == Some(d),
{
    let s: int = SCALE as int;
    assert(d.x == -n.x && d.y == -n.y && d.z == -n.z);
    assert((-n.x) * (-n.x) == n.x * n.x) by (nonlinear_arith);
    assert((-n.y) * (-n.y) == n.y * n.y) by (nonlinear_arith);
    assert((-n.z) * (-n.z) == n.z * n.z) by (nonlinear_arith);
    assert(dot3(d, d) == s * s);
    // the incoming direction is already unit: normalizing returns it
    assert(s * s <= s * s < (s + 1) * (s + 1));
    crate::math::lemma_sqrt_floor_is(s * s, s);
    crate::math::lemma_div_trunc_exact(d.x as int, s);
    crate::math::lemma_div_trunc_exact(d.y as int, s);
    crate::math::lemma_div_trunc_exact(d.z as int, s);
    let up = normalize_spec(d)->0;
    assert(up == d);
    // the ray comes from outside: the cosine term is exactly one
    assert(n.x * (-n.x) == -(n.x * n.x)) by (nonlinear_arith);
    assert(n.y * (-n.y) == -(n.y * n.y)) by (nonlinear_arith);
    assert(n.z * (-n.z) == -(n.z * n.z)) by (nonlinear_arith);
    assert(dot3(n, d) == -(s * s));
    assert(neg_v(up) == n);
    assert(dot3(n, neg_v(up)) == s * s);
    let cm: int = s * s;
    let s4: int = s * s * s * s;
    assert(cm * cm == s4) by (nonlinear_arith)
        requires
            cm == s * s,
            s4 == s * s * s * s;
    // no total internal reflection at normal incidence
    assert((s4 - cm * cm) * (crate::ETA_DEN as int) * (crate::ETA_DEN as int) == 0);
    assert((crate::ETA_NUM as int) * (crate::ETA_NUM as int) * s4 > 0);
    // the radicand collapses to an exact square
    let w_arg: int = (crate::ETA_NUM as int) * (crate::ETA_NUM as int) * s4 - (s4 - cm * cm) * (
    crate::ETA_DEN as int) * (crate::ETA_DEN as int);
    assert(w_arg == 9 * s4);
    assert((3 * cm) * (3 * cm) == 9 * s4) by (nonlinear_arith)
        requires
            cm * cm == s4;
    assert((3 * cm) * (3 * cm) <= 9 * s4 < (3 * cm + 1) * (3 * cm + 1)) by (nonlinear_arith)
        requires
            cm * cm == s4,
            cm == 16777216;
    crate::math::lemma_sqrt_floor_is(9 * s4, 3 * cm);
    let k: int = (crate::ETA_DEN as int) * cm - 3 * cm;
    assert(k == -cm);
    // the unnormalized transmitted vector is the incoming direction scaled
    assert(2 * s * s * d.x + n.x * (-(s * s)) == (3 * (s * s)) * d.x) by (nonlinear_arith)
        requires
            n.x == -d.x;
    assert(2 * s * s * d.y + n.y * (-(s * s)) == (3 * (s * s)) * d.y) by (nonlinear_arith)
        requires
            n.y == -d.y;
    assert(2 * s * s * d.z + n.z * (-(s * s)) == (3 * (s * s)) * d.z) by (nonlinear_arith)
        requires
            n.z == -d.z;
    let c: int = 3 * (s * s);
    let dd = Vec3 { x: (c * d.x) as i64, y: (c * d.y) as i64, z: (c * d.z) as i64 };
    assert(-c * s <= dd.x <= c * s && dd.x == c * d.x) by (nonlinear_arith)
        requires
            c == 3 * (s * s),
            s == 4096,
            -s <= d.x <= s,
            dd.x == (c * d.x) as i64;
    assert(-c * s <= dd.y <= c * s && dd.y == c * d.y) by (nonlinear_arith)
        requires
            c == 3 * (s * s),
            s == 4096,
            -s <= d.y <= s,
            dd.y == (c * d.y) as i64;
    assert(-c * s <= dd.z <= c * s && dd.z == c * d.z) by (nonlinear_arith)
        requires
            c == 3 * (s * s),
            s == 4096,
            -s <= d.z <= s,
            dd.z == (c * d.z) as i64;
    // its length is the same scale factor times the unit length
    assert(dd.x * dd.x == (c * c) * (d.x * d.x)) by (nonlinear_arith)
        requires
            dd.x == c * d.x;
    assert(dd.y * dd.y == (c * c) * (d.y * d.y)) by (nonlinear_arith)
        requires
            dd.y == c * d.y;
    assert(dd.z * dd.z == (c * c) * (d.z * d.z)) by (nonlinear_arith)
        requires
            dd.z == c * d.z;
    assert((c * c) * (d.x * d.x) + (c * c) * (d.y * d.y) + (c * c) * (d.z * d.z) == (c * c) * (s
        * s)) by (nonlinear_arith)
        requires
            d.x * d.x + d.y * d.y + d.z * d.z == s * s;
    assert((c * c) * (s * s) == (c * s) * (c * s)) by (nonlinear_arith);
    assert(dot3(dd, dd) == (c * s) * (c * s));
    assert((c * s) * (c * s) <= dot3(dd, dd) < (c * s + 1) * (c * s + 1)) by (nonlinear_arith)
        requires
            dot3(dd, dd) == (c * s) * (c * s),
            c * s > 0;
    crate::math::lemma_sqrt_floor_is(dot3(dd, dd), c * s);
    assert(dd.x * s == d.x * (c * s)) by (nonlinear_arith)
        requires
            dd.x == c * d.x;
    assert(dd.y * s == d.y * (c * s)) by (nonlinear_arith)
        requires
            dd.y == c * d.y;
    assert(dd.z * s == d.z * (c * s)) by (nonlinear_arith)
        requires
            dd.z == c * d.z;
    crate::math::lemma_div_trunc_exact(d.x as int, c * s);
    crate::math::lemma_div_trunc_exact(d.y as int, c * s);
    crate::math::lemma_div_trunc_exact(d.z as int, c * s);
    assert(normalize_spec(dd) == Some(d));
}

/// Refraction of the incoming ray at a hit, one bounce deeper; total
/// internal reflection falls back to the mirror direction.
pub fn refract_ray(h: &Hit, r: &Ray) -> (res: Option<Ray>)
    requires
        hit_wf(*h),
        ray_wf(*r),
        r.depth <= MAX_DEPTH,
    ensures
        res == match refract_dir_spec(r.dir, h.n) {
            None => None::<Ray>,
            Some(dir) => Some(Ray { origin: h.p, dir, depth: (r.depth + 1) as usize }),
        },
        res matches Some(nr) ==> ray_wf(nr) && nr.depth == r.depth + 1,
{
    match refract_dir(r.dir, h.n) {
        None => None,
        Some(dir) => Some(Ray::new(h.p, dir, r.depth)),
    }
}

/// Exact exec counterpart of `refract_dir_spec`.
#[verifier::rlimit(60)]
pub fn refract_dir(d: Vec3, n: Vec3) -> (res: Option<Vec3>)
    requires
        bounded(d, SCALE as int),
        bounded(n, SCALE as int),
    ensures
        res == refract_dir_spec(d, n),
        res matches Some(u) ==> bounded(u, SCALE as int),
{
    let nd: i64 = dot3e(n, d);
    let inside: bool = nd > 0;
    let norm: Vec3 = if inside {
        crate::vec3::neg3(n)
    } else {
        n
    };
    let en: i64 = if inside {
        crate::ETA_NUM
    } else {
        crate::ETA_DEN
    };
    let ed: i64 = if inside {
        crate::ETA_DEN
    } else {
        crate::ETA_NUM
    };
    let upo = normalize_dir(d);
    match upo {
        None => None,
        Some(up) => {
            let nup = crate::vec3::neg3(up);
            let c0: i64 = dot3e(norm, nup);
            proof {
                lemma_dot3_bound(norm, nup, SCALE as int, SCALE as int);
            }
            let cm: i64 = if c0 > SCALE * SCALE {
                SCALE * SCALE
            } else {
                c0
            };
            let s4: i64 = SCALE * SCALE * SCALE * SCALE;
            proof {
                lemma_mul_bound(cm as int, cm as int, 3 * 4096 * 4096int, 3 * 4096 * 4096int);
                lemma_mul_bound(
                    s4 as int - (cm as int) * (cm as int),
                    en as int,
                    0xA_0000_0000_0000,
                    3,
                );
                lemma_mul_bound(
                    (s4 as int - (cm as int) * (cm as int)) * (en as int),
                    en as int,
                    0x1E_0000_0000_0000,
                    3,
                );
            }
            proof {
                lemma_mul_bound(ed as int, ed as int, 3, 3);
                lemma_mul_bound((ed as int) * (ed as int), s4 as int, 9, 0x1_0000_0000_0000);
            }
            let lhs: i128 = ((s4 as i128) - (cm as i128) * (cm as i128)) * (en as i128) * (
            en as i128);
            let rhs: i128 = (ed as i128) * (ed as i128) * (s4 as i128);
            if lhs > rhs {
                reflect_dir(d, n)
            } else {
                let wbig: i128 = rhs - lhs;
                let w128: u128 = crate::math::isqrt_u128(wbig as u128);
                proof {
                    assert((w128 as int) * (w128 as int) <= wbig as int);
                    assert(wbig as int <= 0x63_0000_0000_0000int);
                    assert((w128 as int) < 0x1000_0000int) by (nonlinear_arith)
                        requires
                            (w128 as int) * (w128 as int) <= 0x63_0000_0000_0000int,
                            w128 as int >= 0;
                }
                let w: i64 = w128 as u64 as i64;
                proof {
                    lemma_mul_bound(en as int, cm as int, 3, 3 * 4096 * 4096int);
                }
                let k: i64 = en * cm - w;
                proof {
                    lemma_mul_bound(
                        (en * SCALE * SCALE) as int,
                        up.x as int,
                        3 * 4096 * 4096int,
                        SCALE as int,
                    );
                    lemma_mul_bound(
                        (en * SCALE * SCALE) as int,
                        up.y as int,
                        3 * 4096 * 4096int,
                        SCALE as int,
                    );
                    lemma_mul_bound(
                        (en * SCALE * SCALE) as int,
                        up.z as int,
                        3 * 4096 * 4096int,
                        SCALE as int,
                    );
                    lemma_mul_bound(norm.x as int, k as int, SCALE as int, 0x2000_0000);
                    lemma_mul_bound(norm.y as int, k as int, SCALE as int, 0x2000_0000);
                    lemma_mul_bound(norm.z as int, k as int, SCALE as int, 0x2000_0000);
                }
                let dd = Vec3 {
                    x: en * SCALE * SCALE * up.x + norm.x * k,
                    y: en * SCALE * SCALE * up.y + norm.y * k,
                    z: en * SCALE * SCALE * up.z + norm.z * k,
                };
                normalize_dir(dd)
            }
        },
    }
}

/// Fixed-point power of a fraction: `q`-fold rescaled self-multiplication.
pub open spec fn pow_frac_spec(b: int, q: nat) -> int
    decreases q,
{
    if q == 0 {
        SCALE as int
    } else {
        div_trunc(pow_frac_spec(b, (q - 1) as nat) * b, SCALE as int)
    }
}

/// Raises a fraction in `[0, 1]` to the `q`-th power.
pub fn pow_frac(b: i64, q: u32) -> (r: i64)
    requires
        0 <= b <= SCALE,
    ensures
        r as int == pow_frac_spec(b as int, q as nat),
        0 <= r <= SCALE,
{
    let mut acc: i64 = SCALE;
    let mut i: u32 = 0;
    while i < q
        invariant
            0 <= b <= SCALE,
            0 <= acc <= SCALE,
            i <= q,
            acc as int == pow_frac_spec(b as int, i as nat),
        decreases q - i,
    {
        proof {
            lemma_mul_bound(acc as int, b as int, SCALE as int, SCALE as int);
            assert(acc as int * b as int >= 0) by (nonlinear_arith)
                requires
                    acc as int >= 0,
                    b as int >= 0;
            lemma_div_le(acc as int * b as int, SCALE as int, SCALE as int);
        }
        acc = crate::math::div_trunc_i64(acc * b, SCALE);
        i = i + 1;
    }
    acc
}

/// The Phong illumination value at a hit: the ambient term, plus — when the
/// first light is visible from the hit point — a diffuse cosine lobe and a
/// specular lobe of exponent `q`, both attenuated by the squared distance
/// to the light.
pub open spec fn phong_spec(color: Vec3, h: Hit, spec_coeff: Vec3, q: u32, s: Scene) -> Vec3 {
    let amb = Vec3 {
        x: div_trunc(color.x * s.ambient.x, SCALE as int) as i64,
        y: div_trunc(color.y * s.ambient.y, SCALE as int) as i64,
        z: div_trunc(color.z * s.ambient.z, SCALE as int) as i64,
    };
    let lp = crate::scene::light_point_spec(s);
    let l = Vec3 { x: (lp.x - h.p.x) as i64, y: (lp.y - h.p.y) as i64, z: (lp.z - h.p.z) as i64 };
    match normalize_spec(l) {
        None => amb,
        Some(lu) => {
            let sray = Ray { origin: h.p, dir: lu, depth: 1 };
            let vis = match crate::scene::nearest_hit(s.objects@, sray, s.objects.len() as int) {
                Some(hh) => hh.object == s.lights[0],
                None => false,
            };
            if !vis {
                amb
            } else {
                let dcos = if dot3(h.n, lu) > 0 {
                    dot3(h.n, lu)
                } else {
                    0
                };
                let rv = reflect_vec(lu, h.n);
                let scos = match (normalize_spec(rv), normalize_spec(h.p)) {
                    (Some(rn), Some(ph)) => if dot3(rn, ph) > 0 {
                        dot3(rn, ph)
                    } else {
                        0
                    },
                    _ => 0,
                };
                let base = if div_trunc(scos, SCALE as int) > SCALE as int {
                    SCALE as int
                } else {
                    div_trunc(scos, SCALE as int)
                };
                let sp = pow_frac_spec(base, q as nat);
                let l2 = dot3(l, l);
                Vec3 {
                    x: (amb.x + div_trunc(
                        (div_trunc(dcos * color.x, SCALE * SCALE) + div_trunc(
                            sp * spec_coeff.x,
                            SCALE as int,
                        )) * SCALE * SCALE,
                        l2,
                    )) as i64,
                    y: (amb.y + div_trunc(
                        (div_trunc(dcos * color.y, SCALE * SCALE) + div_trunc(
                            sp * spec_coeff.y,
                            SCALE as int,
                        )) * SCALE * SCALE,
                        l2,
                    )) as i64,
                    z: (amb.z + div_trunc(
                        (div_trunc(dcos * color.z, SCALE * SCALE) + div_trunc(
                            sp * spec_coeff.z,
                            SCALE as int,
                        )) * SCALE * SCALE,
                        l2,
                    )) as i64,
                }
            }
        },
    }
}

/// Shades a hit with the Phong model, exactly as `phong_spec` states it.
pub fn phong_illum(color: Vec3, h: &Hit, spec_coeff: Vec3, q: u32, scene: &Scene)
    -> (res: Vec3)
    requires
        crate::scene::scene_wf(*scene),
        hit_wf(*h),
        crate::material::color_wf(color),
        crate::material::color_wf(spec_coeff),
        q <= 64,
    ensures
        res == phong_spec(color, *h, spec_coeff, q, *scene),
        res.x >= 0 && res.y >= 0 && res.z >= 0,
        res.x <= 4096 + 4 * 4096 * 4096 * 4096 && res.y <= 4096 + 4 * 4096 * 4096 * 4096
            && res.z <= 4096 + 4 * 4096 * 4096 * 4096,
{
    let amb = crate::vec3::comp_mul(color, scene.ambient);
    proof {
        lemma_mul_bound(color.x as int, scene.ambient.x as int, SCALE as int, SCALE as int);
        lemma_mul_bound(color.y as int, scene.ambient.y as int, SCALE as int, SCALE as int);
        lemma_mul_bound(color.z as int, scene.ambient.z as int, SCALE as int, SCALE as int);
        lemma_div_le(color.x * scene.ambient.x, SCALE as int, SCALE as int);
        lemma_div_le(color.y * scene.ambient.y, SCALE as int, SCALE as int);
        lemma_div_le(color.z * scene.ambient.z, SCALE as int, SCALE as int);
    }
    let lp = scene.light_point();
    let l = crate::vec3::sub3(lp, h.p);
    let luo = normalize_dir(l);
    match luo {
        None => amb,
        Some(lu) => {
            let sray = Ray { origin: h.p, dir: lu, depth: 1 };
            let first = scene.first_light();
            let vis: bool = match scene.hit(&sray) {
                Some(hh) => hh.object == first,
                None => false,
            };
            if !vis {
                amb
            } else {
                let dc0: i64 = dot3e(h.n, lu);
                let dcos: i64 = if dc0 > 0 {
                    dc0
                } else {
                    0
                };
                let nn: i64 = dot3e(h.n, h.n);
                let dn: i64 = dot3e(lu, h.n);
                proof {
                    lemma_dot3_bound(h.n, h.n, SCALE as int, SCALE as int);
                    lemma_dot3_bound(lu, h.n, SCALE as int, SCALE as int);
                    lemma_dot3_bound(h.n, lu, SCALE as int, SCALE as int);
                    lemma_mul_bound(nn as int, lu.x as int, 3 * 4096 * 4096int, SCALE as int);
                    lemma_mul_bound(nn as int, lu.y as int, 3 * 4096 * 4096int, SCALE as int);
                    lemma_mul_bound(nn as int, lu.z as int, 3 * 4096 * 4096int, SCALE as int);
                    lemma_mul_bound(2 * (dn as int), h.n.x as int, 6 * 4096 * 4096int, SCALE as int);
                    lemma_mul_bound(2 * (dn as int), h.n.y as int, 6 * 4096 * 4096int, SCALE as int);
                    lemma_mul_bound(2 * (dn as int), h.n.z as int, 6 * 4096 * 4096int, SCALE as int);
                }
                let rv = Vec3 {
                    x: nn * lu.x - 2 * dn * h.n.x,
                    y: nn * lu.y - 2 * dn * h.n.y,
                    z: nn * lu.z - 2 * dn * h.n.z,
                };
                let rno = normalize_dir(rv);
                let pho = normalize_dir(h.p);
                let scos: i64 = match (rno, pho) {
                    (Some(rn), Some(ph)) => {
                        proof {
                            lemma_dot3_bound(rn, ph, SCALE as int, SCALE as int);
                        }
                        let sc0 = dot3e(rn, ph);
                        if sc0 > 0 {
                            sc0
                        } else {
                            0
                        }
                    },
                    _ => 0,
                };
                let b0: i64 = crate::math::div_trunc_i64(scos, SCALE);
                let base: i64 = if b0 > SCALE {
                    SCALE
                } else {
                    b0
                };
                proof {
                    lemma_dot3_bound(h.n, lu, SCALE as int, SCALE as int);
                    assert(div_trunc(scos as int, SCALE as int) >= 0);
                }
                let sp: i64 = pow_frac(base, q);
                let l2: i64 = dot3e(l, l);
                proof {
                    crate::vec3::lemma_dot3_self_nonneg(l);
                    lemma_dot3_bound(l, l, 10485760, 10485760);
                    if dot3(l, l) == 0 {
                        crate::math::lemma_sqrt_floor_is(0, 0);
                        assert(false);
                    }
                }
                let ax = phong_term(dcos, color.x, sp, spec_coeff.x, l2);
                let ay = phong_term(dcos, color.y, sp, spec_coeff.y, l2);
                let az = phong_term(dcos, color.z, sp, spec_coeff.z, l2);
                Vec3 { x: amb.x + ax, y: amb.y + ay, z: amb.z + az }
            }
        },
    }
}

/// One color channel of the distance-attenuated Phong lobes.
fn phong_term(dcos: i64, col: i64, sp: i64, sc: i64, l2: i64) -> (r: i64)
    requires
        0 <= dcos <= 3 * 4096 * 4096,
        0 <= col <= SCALE,
        0 <= sp <= SCALE,
        0 <= sc <= SCALE,
        1 <= l2,
    ensures
        r as int == div_trunc(
            (div_trunc(dcos * col, SCALE * SCALE) + div_trunc(sp * sc, SCALE as int)) * SCALE
                * SCALE,
            l2 as int,
        ),
        0 <= r <= 4 * 4096 * 4096 * 4096,
{
    proof {
        lemma_mul_bound(dcos as int, col as int, 3 * 4096 * 4096int, SCALE as int);
        assert(dcos as int * col as int >= 0) by (nonlinear_arith)
            requires
                dcos as int >= 0,
                col as int >= 0;
        lemma_div_le(dcos as int * col as int, 4096 * 4096int, 3 * 4096int);
        lemma_mul_bound(sp as int, sc as int, SCALE as int, SCALE as int);
        assert(sp as int * sc as int >= 0) by (nonlinear_arith)
            requires
                sp as int >= 0,
                sc as int >= 0;
        lemma_div_le(sp as int * sc as int, SCALE as int, SCALE as int);
    }
    let dt: i64 = crate::math::div_trunc_i64(dcos * col, SCALE * SCALE);
    let st: i64 = crate::math::div_trunc_i64(sp * sc, SCALE);
    proof {
        assert(((dt + st) * SCALE * SCALE) as int <= (l2 as int) * (4 * 4096 * 4096 * 4096int))
            by (nonlinear_arith)
            requires
                l2 as int >= 1,
                0 <= ((dt + st) * SCALE * SCALE) as int <= 4 * 4096 * 4096 * 4096int;
        lemma_div_le(((dt + st) * SCALE * SCALE) as int, l2 as int, 4 * 4096 * 4096 * 4096int);
    }
    let r = crate::math::div_trunc_i64((dt + st) * SCALE * SCALE, l2);
    r
}

} // verus!
