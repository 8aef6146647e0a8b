//! Scene primitives: closed variants, each answering nearest-intersection
//! queries in exact integer terms.

use vstd::prelude::*;

verus! {

use crate::COORD_MAX;
use crate::GEOM_MAX;
use crate::SCALE;
use crate::T_LIMIT;
use crate::hit::Hit;
use crate::hit::hit_wf;
use crate::material::Material;
use crate::material::material_wf;
use crate::math::div_trunc;
use crate::math::iabs;
use crate::math::isqrt_u128;
use crate::math::lemma_mul_bound;
use crate::math::sqrt_floor;
use crate::ray::Ray;
use crate::ray::ray_at_spec;
use crate::ray::ray_wf;
use crate::vec3::Vec3;
use crate::vec3::bounded;
use crate::vec3::dot3;
use crate::vec3::dot3e;
use crate::vec3::lemma_dot3_bound;
use crate::vec3::normalize_dir;
use crate::vec3::normalize_spec;
use crate::vec3::sub3;

/// Bound on a rectangle's edge vectors.
pub const EDGE_MAX: i64 = 131072;

/// The closed set of scene primitives.
#[derive(Clone, Copy, Debug)]
pub enum Object {
    /// Center, radius and material.
    Sphere(Vec3, i64, Material),
    /// Unit normal, signed offset from the origin, and material; a point `p`
    /// lies on the plane when `dot3(normal, p) == offset * SCALE`.
    Plane(Vec3, i64, Material),
    /// A corner, two orthogonal edge vectors spanning the face, and the
    /// material.
    Rectangle(Vec3, Vec3, Vec3, Material),
    /// An axis-aligned box: the two opposite corners, componentwise
    /// ordered, and the material.
    Cuboid(Vec3, Vec3, Material),
}

/// The material a primitive carries.
pub open spec fn material_spec(o: Object) -> Material {
    match o {
        Object::Sphere(_, _, m) => m,
        Object::Plane(_, _, m) => m,
        Object::Rectangle(_, _, _, m) => m,
        Object::Cuboid(_, _, m) => m,
    }
}

pub open spec fn object_wf(o: Object) -> bool {
    match o {
        Object::Sphere(c, rad, m) => {
            &&& bounded(c, GEOM_MAX as int)
            &&& 0 < rad <= GEOM_MAX
            &&& material_wf(m)
        },
        Object::Plane(n, d, m) => {
            &&& bounded(n, SCALE as int)
            &&& dot3(n, n) > 0
            &&& -GEOM_MAX <= d <= GEOM_MAX
            &&& material_wf(m)
        },
        Object::Rectangle(q, e1, e2, m) => {
            &&& bounded(q, GEOM_MAX as int)
            &&& bounded(e1, EDGE_MAX as int)
            &&& bounded(e2, EDGE_MAX as int)
            &&& dot3(e1, e2) == 0
            &&& normalize_spec(crate::vec3::cross_v(e1, e2)) is Some
            &&& material_wf(m)
        },
        Object::Cuboid(lo, hi, m) => {
            &&& bounded(lo, GEOM_MAX as int)
            &&& bounded(hi, GEOM_MAX as int)
            &&& lo.x < hi.x && lo.y < hi.y && lo.z < hi.z
            &&& material_wf(m)
        },
    }
}

/// The ray parameter at which a ray meets a sphere, if any lies in range:
/// the smaller root of the fixed-point quadratic first, the larger as the
/// fallback for rays starting inside.  Grazing hits (zero discriminant)
/// count as misses.
pub open spec fn sphere_isect_t(c: Vec3, rad: int, r: Ray, t_min: int, t_max: int) -> Option<int> {
    let ocx = r.origin.x - c.x;
    let ocy = r.origin.y - c.y;
    let ocz = r.origin.z - c.z;
    let a = dot3(r.dir, r.dir);
    let hb = SCALE * (ocx * r.dir.x + ocy * r.dir.y + ocz * r.dir.z);
    let cq = SCALE * SCALE * (ocx * ocx + ocy * ocy + ocz * ocz - rad * rad);
    if a <= 0 {
        None
    } else {
        let disc = hb * hb - a * cq;
        if disc <= 0 {
            None
        } else {
            let s = sqrt_floor(disc);
            let t1 = div_trunc(-hb - s, a);
            let t2 = div_trunc(-hb + s, a);
            if t_min <= t1 <= t_max {
                Some(t1)
            } else if t_min <= t2 <= t_max {
                Some(t2)
            } else {
                None
            }
        }
    }
}

/// The ray parameter at which a ray meets a plane, if it lies in range.
pub open spec fn plane_isect_t(n: Vec3, d: int, r: Ray, t_min: int, t_max: int) -> Option<int> {
    let den = dot3(n, r.dir);
    if den == 0 {
        None
    } else {
        let t = div_trunc(SCALE * (d * SCALE - dot3(n, r.origin)), den);
        if t_min <= t <= t_max {
            Some(t)
        } else {
            None
        }
    }
}

/// The solid-angle density of a uniform sphere-surface sample, converted
/// from area measure with the Jacobian `distance^2 / |cos|`: exactly
/// `d2 * SCALE^4 / (4 * PI_FP * rad^2 * |cos|)` in fixed point, saturated
/// at the word size, and zero at grazing incidence.
pub open spec fn sphere_pdf_spec(rad: int, from: Vec3, dir: Vec3, hl: Hit) -> int {
    let dv = Vec3 {
        x: (hl.p.x - from.x) as i64,
        y: (hl.p.y - from.y) as i64,
        z: (hl.p.z - from.z) as i64,
    };
    let d2 = dot3(dv, dv);
    let ac = crate::math::iabs(dot3(hl.n, dir));
    if ac == 0 {
        0
    } else {
        let q = div_trunc(d2 * 0x1_0000_0000_0000, 4 * (crate::PI_FP as int) * (rad * rad) * ac);
        if q > i64::MAX as int {
            i64::MAX as int
        } else {
            q
        }
    }
}

/// The shadow ray `sample_towards` builds: a jitter direction derived from
/// the two draws picks a point on the light sphere's surface, and the ray
/// aims from `from` at that point; degenerate directions fall back to the
/// world up-axis.
pub open spec fn sample_towards_spec(o: Object, from: Vec3, rand_sq: (i64, i64)) -> Ray {
    match o {
        Object::Sphere(c, rad, _) => {
            let jv = Vec3 {
                x: (2 * rand_sq.0 - SCALE) as i64,
                y: (2 * rand_sq.1 - SCALE) as i64,
                z: (rand_sq.0 - rand_sq.1) as i64,
            };
            let nj = match normalize_spec(jv) {
                None => Vec3 { x: 0, y: 0, z: SCALE },
                Some(u) => u,
            };
            let off = Vec3 {
                x: div_trunc(nj.x * rad, SCALE as int) as i64,
                y: div_trunc(nj.y * rad, SCALE as int) as i64,
                z: div_trunc(nj.z * rad, SCALE as int) as i64,
            };
            let dir0 = Vec3 {
                x: (c.x + off.x - from.x) as i64,
                y: (c.y + off.y - from.y) as i64,
                z: (c.z + off.z - from.z) as i64,
            };
            let dir = match normalize_spec(dir0) {
                None => Vec3 { x: 0, y: 0, z: SCALE },
                Some(u) => u,
            };
            Ray { origin: from, dir, depth: 0 }
        },
        _ => Ray { origin: from, dir: Vec3 { x: 0, y: 0, z: SCALE }, depth: 0 },
    }
}

/// Where a ray meets a rectangle: the hit on its supporting plane (whose
/// unit normal is the normalized edge cross product), kept only when the
/// point lies within both edge spans; the reported normal faces the ray.
pub open spec fn rect_isect_spec(
    q: Vec3,
    e1: Vec3,
    e2: Vec3,
    r: Ray,
    t_min: int,
    t_max: int,
    idx: int,
) -> Option<Hit> {
    match normalize_spec(crate::vec3::cross_v(e1, e2)) {
        None => None,
        Some(n) => {
            let den = dot3(n, r.dir);
            if den == 0 {
                None
            } else {
                let t = div_trunc(SCALE * (dot3(n, q) - dot3(n, r.origin)), den);
                if !(t_min <= t <= t_max) {
                    None
                } else {
                    let p = ray_at_spec(r, t);
                    if !bounded(p, COORD_MAX as int) {
                        None
                    } else {
                        let w = Vec3 {
                            x: (p.x - q.x) as i64,
                            y: (p.y - q.y) as i64,
                            z: (p.z - q.z) as i64,
                        };
                        let u = dot3(w, e1);
                        let v = dot3(w, e2);
                        if 0 <= u <= dot3(e1, e1) && 0 <= v <= dot3(e2, e2) {
                            if den > 0 {
                                Some(
                                    Hit {
                                        t: t as i64,
                                        object: idx as usize,
                                        p,
                                        n: crate::vec3::neg_v(n),
                                    },
                                )
                            } else {
                                Some(Hit { t: t as i64, object: idx as usize, p, n })
                            }
                        } else {
                            None
                        }
                    }
                }
            }
        },
    }
}

/// One axis of the slab test: the entry and exit parameters of the ray
/// against the two axis planes, or nothing when a parallel ray lies outside
/// the slab.  A parallel ray inside it contributes sentinel parameters past
/// every admissible range.
pub open spec fn slab_spec(lo: int, hi: int, o: int, d: int) -> Option<(int, int)> {
    if d == 0 {
        if o < lo || o > hi {
            None
        } else {
            Some((-4194304int, 4194304int))
        }
    } else {
        let ta = div_trunc(SCALE * (lo - o), d);
        let tb = div_trunc(SCALE * (hi - o), d);
        if ta <= tb {
            Some((ta, tb))
        } else {
            Some((tb, ta))
        }
    }
}

/// Where a ray meets an axis-aligned box, by the slab test: the latest
/// entry must precede the earliest exit; the entry parameter is preferred,
/// the exit serves rays starting inside; the normal is the outward axis of
/// the face met.
pub open spec fn cuboid_isect_spec(
    lo: Vec3,
    hi: Vec3,
    r: Ray,
    t_min: int,
    t_max: int,
    idx: int,
) -> Option<Hit> {
    let sx = slab_spec(lo.x as int, hi.x as int, r.origin.x as int, r.dir.x as int);
    let sy = slab_spec(lo.y as int, hi.y as int, r.origin.y as int, r.dir.y as int);
    let sz = slab_spec(lo.z as int, hi.z as int, r.origin.z as int, r.dir.z as int);
    match (sx, sy, sz) {
        (Some(px), Some(py), Some(pz)) => {
        let ax = px.0;
        let bx = px.1;
        let ay = py.0;
        let by = py.1;
        let az = pz.0;
        let bz = pz.1;
        let tlo = if ax >= ay && ax >= az {
            ax
        } else if ay >= az {
            ay
        } else {
            az
        };
        let thi = if bx <= by && bx <= bz {
            bx
        } else if by <= bz {
            by
        } else {
            bz
        };
        if tlo > thi {
            None
        } else if t_min <= tlo <= t_max {
            let p = ray_at_spec(r, tlo);
            if !bounded(p, COORD_MAX as int) {
                None
            } else {
                let n = if ax >= ay && ax >= az {
                    Vec3 { x: if r.dir.x > 0 { (-SCALE) as i64 } else { SCALE }, y: 0, z: 0 }
                } else if ay >= az {
                    Vec3 { x: 0, y: if r.dir.y > 0 { (-SCALE) as i64 } else { SCALE }, z: 0 }
                } else {
                    Vec3 { x: 0, y: 0, z: if r.dir.z > 0 { (-SCALE) as i64 } else { SCALE } }
                };
                Some(Hit { t: tlo as i64, object: idx as usize, p, n })
            }
        } else if t_min <= thi <= t_max {
            let p = ray_at_spec(r, thi);
            if !bounded(p, COORD_MAX as int) {
                None
            } else {
                let n = if bx <= by && bx <= bz {
                    Vec3 { x: if r.dir.x > 0 { SCALE } else { (-SCALE) as i64 }, y: 0, z: 0 }
                } else if by <= bz {
                    Vec3 { x: 0, y: if r.dir.y > 0 { SCALE } else { (-SCALE) as i64 }, z: 0 }
                } else {
                    Vec3 { x: 0, y: 0, z: if r.dir.z > 0 { SCALE } else { (-SCALE) as i64 } }
                };
                Some(Hit { t: thi as i64, object: idx as usize, p, n })
            }
        } else {
            None
        }
        },
        _ => None,
    }
}

/// The full intersection record an object reports, `None` when the ray
/// misses, the hit falls outside the world box, or the surface normal
/// degenerates.
pub open spec fn isect_spec(o: Object, r: Ray, t_min: int, t_max: int, idx: int) -> Option<Hit> {
    match o {
        Object::Sphere(c, rad, _) => match sphere_isect_t(c, rad as int, r, t_min, t_max) {
            None => None,
            Some(t) => {
                let p = ray_at_spec(r, t);
                let nv = Vec3 {
                    x: (p.x - c.x) as i64,
                    y: (p.y - c.y) as i64,
                    z: (p.z - c.z) as i64,
                };
                if !bounded(p, COORD_MAX as int) {
                    None
                } else {
                    match normalize_spec(nv) {
                        None => None,
                        Some(n) => Some(
                            Hit { t: t as i64, object: idx as usize, p, n },
                        ),
                    }
                }
            },
        },
        Object::Plane(pn, d, _) => match plane_isect_t(pn, d as int, r, t_min, t_max) {
            None => None,
            Some(t) => {
                let p = ray_at_spec(r, t);
                if !bounded(p, COORD_MAX as int) {
                    None
                } else if dot3(pn, r.dir) > 0 {
                    Some(
                        Hit {
                            t: t as i64,
                            object: idx as usize,
                            p,
                            n: Vec3 { x: (-pn.x) as i64, y: (-pn.y) as i64, z: (-pn.z) as i64 },
                        },
                    )
                } else {
                    Some(Hit { t: t as i64, object: idx as usize, p, n: pn })
                }
            },
        },
        Object::Rectangle(q, e1, e2, _) => rect_isect_spec(q, e1, e2, r, t_min, t_max, idx),
        Object::Cuboid(lo, hi, _) => cuboid_isect_spec(lo, hi, r, t_min, t_max, idx),
    }
}

impl Object {
    pub fn material(&self) -> (m: &Material)
        ensures
            *m == material_spec(*self),
    {
        match self {
            Object::Sphere(_, _, m) => m,
            Object::Plane(_, _, m) => m,
            Object::Rectangle(_, _, _, m) => m,
            Object::Cuboid(_, _, m) => m,
        }
    }

    /// Nearest intersection with `t` inside `[t_min, t_max]`, exactly as
    /// `isect_spec` defines it.
    pub fn intersect(&self, r: &Ray, t_min: i64, t_max: i64, idx: usize) -> (res: Option<Hit>)
        requires
            object_wf(*self),
            ray_wf(*r),
            crate::EPSILON < t_min <= t_max <= T_LIMIT,
        ensures
            res == isect_spec(*self, *r, t_min as int, t_max as int, idx as int),
            res matches Some(h) ==> hit_wf(h) && h.object == idx,
    {
        match self {
            Object::Sphere(c, rad, _) => {
                Self::sphere_intersect(*c, *rad, r, t_min, t_max, idx)
            },
            Object::Plane(n, d, _) => Self::plane_intersect(*n, *d, r, t_min, t_max, idx),
            Object::Rectangle(q, e1, e2, _) => {
                Self::rect_intersect(*q, *e1, *e2, r, t_min, t_max, idx)
            },
            Object::Cuboid(lo, hi, _) => Self::cuboid_intersect(*lo, *hi, r, t_min, t_max, idx),
        }
    }

    fn sphere_intersect(c: Vec3, rad: i64, r: &Ray, t_min: i64, t_max: i64, idx: usize) -> (res:
        Option<Hit>)
        requires
            bounded(c, GEOM_MAX as int),
            0 < rad <= GEOM_MAX,
            ray_wf(*r),
            crate::EPSILON < t_min <= t_max <= T_LIMIT,
        ensures
            res == isect_spec(
                Object::Sphere(c, rad, Material::Mirror),
                *r,
                t_min as int,
                t_max as int,
                idx as int,
            ),
            forall|m: Material|
                res == #[trigger] isect_spec(
                    Object::Sphere(c, rad, m),
                    *r,
                    t_min as int,
                    t_max as int,
                    idx as int,
                ),
            res matches Some(h) ==> hit_wf(h) && h.object == idx,
    {
        let oc = sub3(r.origin, c);
        let a64: i64 = dot3e(r.dir, r.dir);
        if a64 <= 0 {
            return None;
        }
        let ocd: i64 = dot3e(oc, r.dir);
        let oco: i64 = dot3e(oc, oc);
        proof {
            lemma_dot3_bound(r.dir, r.dir, SCALE as int, SCALE as int);
            lemma_dot3_bound(oc, r.dir, 10485760, SCALE as int);
            lemma_dot3_bound(oc, oc, 10485760, 10485760);
            lemma_mul_bound(SCALE as int, ocd as int, SCALE as int, 3 * 10485760 * 4096int);
            lemma_mul_bound(rad as int, rad as int, GEOM_MAX as int, GEOM_MAX as int);
        }
        let a: i128 = a64 as i128;
        let hb: i128 = (SCALE as i128) * (ocd as i128);
        let rad2: i128 = (rad as i128) * (rad as i128);
        let diff: i128 = (oco as i128) - rad2;
        proof {
            lemma_mul_bound(
                (SCALE as int) * (SCALE as int),
                diff as int,
                0x1000000,
                3 * 10485760 * 10485760 + 0x10000000000000int,
            );
        }
        let ss: i128 = (SCALE as i128) * (SCALE as i128);
        let cq: i128 = ss * diff;
        proof {
            lemma_mul_bound(hb as int, hb as int, 0x8000000000000, 0x8000000000000);
            lemma_mul_bound(a as int, cq as int, 0x4000000, 0x10000000000000000000000);
        }
        let disc: i128 = hb * hb - a * cq;
        if disc <= 0 {
            return None;
        }
        let s128: u128 = isqrt_u128(disc as u128);
        let s: i128 = s128 as i128;
        let t1: i128 = crate::math::div_trunc_i128(-hb - s, a);
        let t2: i128 = crate::math::div_trunc_i128(-hb + s, a);
        let tl: i128 = t_min as i128;
        let th: i128 = t_max as i128;
        let t: i128 = if tl <= t1 && t1 <= th {
            t1
        } else if tl <= t2 && t2 <= th {
            t2
        } else {
            return None;
        };
        let ti: i64 = t as i64;
        let p = r.at(ti);
        if p.x < -COORD_MAX || p.x > COORD_MAX || p.y < -COORD_MAX || p.y > COORD_MAX || p.z
            < -COORD_MAX || p.z > COORD_MAX {
            return None;
        }
        let nv = sub3(p, c);
        match normalize_dir(nv) {
            None => None,
            Some(n) => Some(Hit::new(ti, idx, p, n)),
        }
    }

    /// A shadow ray from `from` toward a point sampled on this light's
    /// surface; the jitter is a pure function of the two draws handed in.
    pub fn sample_towards(&self, from: Vec3, rand_sq: (i64, i64)) -> (r: Ray)
        requires
            object_wf(*self),
            self is Sphere,
            bounded(from, COORD_MAX as int),
            0 <= rand_sq.0 < SCALE,
            0 <= rand_sq.1 < SCALE,
        ensures
            r == sample_towards_spec(*self, from, rand_sq),
            r.origin == from,
            bounded(r.dir, SCALE as int),
            ray_wf(r),
            r.depth == 0,
    {
        match self {
            Object::Sphere(c, rad, _) => {
                let jv = Vec3 {
                    x: 2 * rand_sq.0 - SCALE,
                    y: 2 * rand_sq.1 - SCALE,
                    z: rand_sq.0 - rand_sq.1,
                };
                let nj: Vec3 = match crate::vec3::normalize_dir(jv) {
                    None => Vec3 { x: 0, y: 0, z: SCALE },
                    Some(u) => u,
                };
                proof {
                    lemma_mul_bound(nj.x as int, *rad as int, SCALE as int, GEOM_MAX as int);
                    lemma_mul_bound(nj.y as int, *rad as int, SCALE as int, GEOM_MAX as int);
                    lemma_mul_bound(nj.z as int, *rad as int, SCALE as int, GEOM_MAX as int);
                    crate::math::lemma_div_le(iabs(nj.x * *rad), SCALE as int, GEOM_MAX as int);
                    crate::math::lemma_div_le(iabs(nj.y * *rad), SCALE as int, GEOM_MAX as int);
                    crate::math::lemma_div_le(iabs(nj.z * *rad), SCALE as int, GEOM_MAX as int);
                }
                let off = crate::vec3::mul_div3(nj, *rad, SCALE);
                let target = crate::vec3::add3(*c, off);
                let dir0 = crate::vec3::sub3(target, from);
                let dir: Vec3 = match crate::vec3::normalize_dir(dir0) {
                    None => Vec3 { x: 0, y: 0, z: SCALE },
                    Some(u) => u,
                };
                Ray { origin: from, dir, depth: 0 }
            },
            _ => Ray { origin: from, dir: Vec3 { x: 0, y: 0, z: SCALE }, depth: 0 },
        }
    }

    /// The solid-angle density with which `sample_towards` reaches the hit
    /// `hl` on this light: squared distance over projected light area,
    /// saturating at the word size, zero at grazing incidence.
    #[verifier::rlimit(60)]
    pub fn sample_towards_pdf(&self, from: Vec3, dir: Vec3, hl: &Hit) -> (pdf: i64)
        requires
            object_wf(*self),
            self is Sphere,
            bounded(from, COORD_MAX as int),
            bounded(dir, SCALE as int),
            crate::hit::hit_wf(*hl),
        ensures
            pdf as int == sphere_pdf_spec(
                match *self {
                    Object::Sphere(_, rad, _) => rad as int,
                    _ => 1,
                },
                from,
                dir,
                *hl,
            ),
            pdf >= 0,
    {
        let rad: i64 = match self {
            Object::Sphere(_, rad, _) => *rad,
            _ => 1,
        };
        let dv = crate::vec3::sub3(hl.p, from);
        let d2: i128 = crate::vec3::dot3_i128(dv, dv);
        let ac0: i64 = dot3e(hl.n, dir);
        let ac: i64 = if ac0 < 0 {
            -ac0
        } else {
            ac0
        };
        if ac == 0 {
            return 0;
        }
        proof {
            lemma_dot3_bound(hl.n, dir, SCALE as int, SCALE as int);
            lemma_dot3_bound(dv, dv, 2 * 6291456int, 2 * 6291456int);
            crate::vec3::lemma_dot3_self_nonneg(dv);
            lemma_mul_bound(rad as int, rad as int, GEOM_MAX as int, GEOM_MAX as int);
            lemma_mul_bound(
                4 * (crate::PI_FP as int),
                (rad as int) * (rad as int),
                4 * 12868int,
                0x1000_0000_0000,
            );
            lemma_mul_bound(
                4 * (crate::PI_FP as int) * ((rad as int) * (rad as int)),
                ac as int,
                0x1000_0000_0000 * 4 * 12868int,
                3 * 4096 * 4096int,
            );
            lemma_mul_bound(
                d2 as int,
                0x1_0000_0000_0000int,
                3 * 4 * 6291456 * 6291456int,
                0x1_0000_0000_0000int,
            );
        }
        proof {
            assert((rad as int) * (rad as int) >= 1) by (nonlinear_arith)
                requires
                    rad as int >= 1;
            assert(4 * (crate::PI_FP as int) * ((rad as int) * (rad as int)) * (ac as int) >= 1)
                by (nonlinear_arith)
                requires
                    (rad as int) * (rad as int) >= 1,
                    ac as int >= 1;
            assert((d2 as int) * 0x1_0000_0000_0000int >= 0) by (nonlinear_arith)
                requires
                    d2 as int >= 0;
        }
        let rr: i128 = (rad as i128) * (rad as i128);
        let c1: i128 = 4 * (crate::PI_FP as i128) * rr;
        proof {
            lemma_mul_bound(c1 as int, ac as int, 4 * 12868 * 0x1000_0000_0000int, 3 * 4096 * 4096int);
        }
        let denom: i128 = c1 * (ac as i128);
        let num: i128 = d2 * 0x1_0000_0000_0000i128;
        let q: i128 = crate::math::div_trunc_i128(num, denom);
        if q > (i64::MAX as i128) {
            i64::MAX
        } else {
            q as i64
        }
    }

    fn plane_intersect(pn: Vec3, d: i64, r: &Ray, t_min: i64, t_max: i64, idx: usize) -> (res:
        Option<Hit>)
        requires
            bounded(pn, SCALE as int),
            dot3(pn, pn) > 0,
            -GEOM_MAX <= d <= GEOM_MAX,
            ray_wf(*r),
            crate::EPSILON < t_min <= t_max <= T_LIMIT,
        ensures
            forall|m: Material|
                res == #[trigger] isect_spec(
                    Object::Plane(pn, d, m),
                    *r,
                    t_min as int,
                    t_max as int,
                    idx as int,
                ),
            res matches Some(h) ==> hit_wf(h) && h.object == idx,
    {
        let den: i64 = dot3e(pn, r.dir);
        if den == 0 {
            return None;
        }
        let no: i64 = dot3e(pn, r.origin);
        proof {
            lemma_dot3_bound(pn, r.origin, SCALE as int, COORD_MAX as int);
            lemma_mul_bound(d as int, SCALE as int, GEOM_MAX as int, SCALE as int);
            lemma_mul_bound(
                SCALE as int,
                (d as int) * (SCALE as int) - (no as int),
                SCALE as int,
                0x10000000000 + 3 * 4096 * 6291456int,
            );
        }
        let num: i128 = (SCALE as i128) * ((d as i128) * (SCALE as i128) - (no as i128));
        let t128: i128 = crate::math::div_trunc_i128(num, den as i128);
        let tl: i128 = t_min as i128;
        let th: i128 = t_max as i128;
        if t128 < tl || t128 > th {
            return None;
        }
        let ti: i64 = t128 as i64;
        let p = r.at(ti);
        if p.x < -COORD_MAX || p.x > COORD_MAX || p.y < -COORD_MAX || p.y > COORD_MAX || p.z
            < -COORD_MAX || p.z > COORD_MAX {
            return None;
        }
        if den > 0 {
            let nn = crate::vec3::neg3(pn);
            Some(Hit::new(ti, idx, p, nn))
        } else {
            Some(Hit::new(ti, idx, p, pn))
        }
    }

    fn rect_intersect(q: Vec3, e1: Vec3, e2: Vec3, r: &Ray, t_min: i64, t_max: i64, idx: usize)
        -> (res: Option<Hit>)
        requires
            bounded(q, GEOM_MAX as int),
            bounded(e1, EDGE_MAX as int),
            bounded(e2, EDGE_MAX as int),
            dot3(e1, e2) == 0,
            normalize_spec(crate::vec3::cross_v(e1, e2)) is Some,
            ray_wf(*r),
            crate::EPSILON < t_min <= t_max <= T_LIMIT,
        ensures
            res == rect_isect_spec(q, e1, e2, *r, t_min as int, t_max as int, idx as int),
            res matches Some(h) ==> hit_wf(h) && h.object == idx,
    {
        let cr = crate::vec3::cross3(e1, e2);
        proof {
            lemma_mul_bound(e1.y as int, e2.z as int, EDGE_MAX as int, EDGE_MAX as int);
            lemma_mul_bound(e1.z as int, e2.y as int, EDGE_MAX as int, EDGE_MAX as int);
            lemma_mul_bound(e1.z as int, e2.x as int, EDGE_MAX as int, EDGE_MAX as int);
            lemma_mul_bound(e1.x as int, e2.z as int, EDGE_MAX as int, EDGE_MAX as int);
            lemma_mul_bound(e1.x as int, e2.y as int, EDGE_MAX as int, EDGE_MAX as int);
            lemma_mul_bound(e1.y as int, e2.x as int, EDGE_MAX as int, EDGE_MAX as int);
        }
        match normalize_dir(cr) {
            None => None,
            Some(n) => {
                let den: i64 = dot3e(n, r.dir);
                if den == 0 {
                    return None;
                }
                let nq: i64 = dot3e(n, q);
                let no: i64 = dot3e(n, r.origin);
                proof {
                    lemma_dot3_bound(n, q, SCALE as int, GEOM_MAX as int);
                    lemma_dot3_bound(n, r.origin, SCALE as int, COORD_MAX as int);
                    lemma_mul_bound(
                        SCALE as int,
                        nq as int - no as int,
                        SCALE as int,
                        0x40_0000_0000int,
                    );
                }
                let num: i128 = (SCALE as i128) * ((nq as i128) - (no as i128));
                let t128: i128 = crate::math::div_trunc_i128(num, den as i128);
                let tl: i128 = t_min as i128;
                let th: i128 = t_max as i128;
                if t128 < tl || t128 > th {
                    return None;
                }
                let ti: i64 = t128 as i64;
                let p = r.at(ti);
                if p.x < -COORD_MAX || p.x > COORD_MAX || p.y < -COORD_MAX || p.y > COORD_MAX
                    || p.z < -COORD_MAX || p.z > COORD_MAX {
                    return None;
                }
                let w = sub3(p, q);
                let u: i64 = dot3e(w, e1);
                let v: i64 = dot3e(w, e2);
                let e11: i64 = dot3e(e1, e1);
                let e22: i64 = dot3e(e2, e2);
                if 0 <= u && u <= e11 && 0 <= v && v <= e22 {
                    if den > 0 {
                        let nn = crate::vec3::neg3(n);
                        Some(Hit::new(ti, idx, p, nn))
                    } else {
                        Some(Hit::new(ti, idx, p, n))
                    }
                } else {
                    None
                }
            },
        }
    }

    /// One axis of the slab test.
    fn slab_axis(lo: i64, hi: i64, o: i64, d: i64) -> (res: Option<(i64, i64)>)
        requires
            -GEOM_MAX <= lo <= GEOM_MAX,
            -GEOM_MAX <= hi <= GEOM_MAX,
            -COORD_MAX <= o <= COORD_MAX,
            -SCALE <= d <= SCALE,
        ensures
            res is None <==> slab_spec(lo as int, hi as int, o as int, d as int) is None,
            res matches Some(pr) ==> slab_spec(lo as int, hi as int, o as int, d as int)
                == Some((pr.0 as int, pr.1 as int)),
    {
        if d == 0 {
            if o < lo || o > hi {
                None
            } else {
                Some((-4194304, 4194304))
            }
        } else {
            proof {
                lemma_mul_bound(SCALE as int, lo as int - o as int, SCALE as int, 0x1000000);
                lemma_mul_bound(SCALE as int, hi as int - o as int, SCALE as int, 0x1000000);
            }
            let ta: i64 = crate::math::div_trunc_i64(SCALE * (lo - o), d);
            let tb: i64 = crate::math::div_trunc_i64(SCALE * (hi - o), d);
            if ta <= tb {
                Some((ta, tb))
            } else {
                Some((tb, ta))
            }
        }
    }

    fn cuboid_intersect(lo: Vec3, hi: Vec3, r: &Ray, t_min: i64, t_max: i64, idx: usize) -> (res:
        Option<Hit>)
        requires
            bounded(lo, GEOM_MAX as int),
            bounded(hi, GEOM_MAX as int),
            lo.x < hi.x && lo.y < hi.y && lo.z < hi.z,
            ray_wf(*r),
            crate::EPSILON < t_min <= t_max <= T_LIMIT,
        ensures
            res == cuboid_isect_spec(lo, hi, *r, t_min as int, t_max as int, idx as int),
            res matches Some(h) ==> hit_wf(h) && h.object == idx,
    {
        let sx = Self::slab_axis(lo.x, hi.x, r.origin.x, r.dir.x);
        let sy = Self::slab_axis(lo.y, hi.y, r.origin.y, r.dir.y);
        let sz = Self::slab_axis(lo.z, hi.z, r.origin.z, r.dir.z);
        match (sx, sy, sz) {
            (Some((ax, bx)), Some((ay, by)), Some((az, bz))) => {
                let tlo: i64 = if ax >= ay && ax >= az {
                    ax
                } else if ay >= az {
                    ay
                } else {
                    az
                };
                let thi: i64 = if bx <= by && bx <= bz {
                    bx
                } else if by <= bz {
                    by
                } else {
                    bz
                };
                if tlo > thi {
                    return None;
                }
                if t_min <= tlo && tlo <= t_max {
                    let p = r.at(tlo);
                    if p.x < -COORD_MAX || p.x > COORD_MAX || p.y < -COORD_MAX || p.y > COORD_MAX
                        || p.z < -COORD_MAX || p.z > COORD_MAX {
                        return None;
                    }
                    let n: Vec3 = if ax >= ay && ax >= az {
                        Vec3 {
                            x: if r.dir.x > 0 {
                                -SCALE
                            } else {
                                SCALE
                            },
                            y: 0,
                            z: 0,
                        }
                    } else if ay >= az {
                        Vec3 {
                            x: 0,
                            y: if r.dir.y > 0 {
                                -SCALE
                            } else {
                                SCALE
                            },
                            z: 0,
                        }
                    } else {
                        Vec3 {
                            x: 0,
                            y: 0,
                            z: if r.dir.z > 0 {
                                -SCALE
                            } else {
                                SCALE
                            },
                        }
                    };
                    Some(Hit::new(tlo, idx, p, n))
                } else if t_min <= thi && thi <= t_max {
                    let p = r.at(thi);
                    if p.x < -COORD_MAX || p.x > COORD_MAX || p.y < -COORD_MAX || p.y > COORD_MAX
                        || p.z < -COORD_MAX || p.z > COORD_MAX {
                        return None;
                    }
                    let n: Vec3 = if bx <= by && bx <= bz {
                        Vec3 {
                            x: if r.dir.x > 0 {
                                SCALE
                            } else {
                                -SCALE
                            },
                            y: 0,
                            z: 0,
                        }
                    } else if by <= bz {
                        Vec3 {
                            x: 0,
                            y: if r.dir.y > 0 {
                                SCALE
                            } else {
                                -SCALE
                            },
                            z: 0,
                        }
                    } else {
                        Vec3 {
                            x: 0,
                            y: 0,
                            z: if r.dir.z > 0 {
                                SCALE
                            } else {
                                -SCALE
                            },
                        }
                    };
                    Some(Hit::new(thi, idx, p, n))
                } else {
                    None
                }
            },
            _ => None,
        }
    }
}

} // verus!
