//! Importance-sampling strategies over directions: a cosine-weighted lobe
//! about a normal, and sampling toward a light object.

use vstd::prelude::*;

verus! {

use crate::EPSILON;
use crate::PI_FP;
use crate::SCALE;
use crate::T_LIMIT;
use crate::math::div_trunc;
use crate::object::Object;
use crate::object::isect_spec;
use crate::object::object_wf;
use crate::object::sphere_pdf_spec;
use crate::ray::Ray;
use crate::vec3::Vec3;
use crate::vec3::bounded;
use crate::vec3::dot3;
use crate::vec3::dot3e;
use crate::vec3::normalize_dir;

/// The closed set of sampling strategies.
#[derive(Clone, Copy, Debug)]
pub enum Pdf {
    /// Cosine-weighted lobe about the stored unit normal.
    Cosine(Vec3),
    /// Sampling toward the stored light object from the stored origin.
    ObjectDir(Object, Vec3),
}

pub open spec fn pdf_wf(p: Pdf) -> bool {
    match p {
        Pdf::Cosine(n) => bounded(n, SCALE as int),
        Pdf::ObjectDir(o, origin) => object_wf(o) && o is Sphere && bounded(
            origin,
            crate::COORD_MAX as int,
        ),
    }
}

/// The cosine density in fixed point: `max(cos, 0) / pi`, which over the
/// stored scales collapses to `max(dot3(n, dir), 0) / PI_FP`.
pub open spec fn cos_pdf_spec(n: Vec3, dir: Vec3) -> int {
    let d = dot3(n, dir);
    if d > 0 {
        div_trunc(d, PI_FP as int)
    } else {
        0
    }
}

/// The density of sampling toward a light: zero when the ray misses it,
/// else the sphere's solid-angle density at the point it meets.
pub open spec fn obj_pdf_spec(o: Object, origin: Vec3, dir: Vec3) -> int {
    let r = Ray { origin, dir, depth: 0 };
    match isect_spec(o, r, EPSILON + 1, T_LIMIT as int, 0) {
        None => 0,
        Some(hl) => sphere_pdf_spec(
            match o {
                Object::Sphere(_, rad, _) => rad as int,
                _ => 1,
            },
            origin,
            dir,
            hl,
        ),
    }
}

/// The direction a cosine-lobe draw yields: a half-space jitter carried
/// through the local frame about `n` and normalized, with `n` itself as the
/// fallback for degenerate frames.
pub open spec fn cos_dir_spec(n: Vec3, rand_sq: (i64, i64)) -> Vec3 {
    match crate::onb::uvw_spec(n) {
        None => n,
        Some(uv) => {
            let lv = Vec3 {
                x: (2 * rand_sq.0 - SCALE) as i64,
                y: (2 * rand_sq.1 - SCALE) as i64,
                z: (1 + (rand_sq.0 + rand_sq.1) / 2) as i64,
            };
            match crate::vec3::normalize_spec(
                crate::onb::to_uvw_spec(lv, uv.0, uv.1, n),
            ) {
                None => n,
                Some(dd) => dd,
            }
        },
    }
}

impl Pdf {
    pub fn cosine(n: Vec3) -> (p: Pdf)
        ensures
            p == Pdf::Cosine(n),
    {
        Pdf::Cosine(n)
    }

    pub fn object_dir(o: Object, origin: Vec3) -> (p: Pdf)
        ensures
            p == Pdf::ObjectDir(o, origin),
    {
        Pdf::ObjectDir(o, origin)
    }

    /// Draws a unit direction according to the strategy; the draw is a pure
    /// function of the two random inputs.
    pub fn generate_dir(&self, rand_sq: (i64, i64)) -> (d: Vec3)
        requires
            pdf_wf(*self),
            0 <= rand_sq.0 < SCALE,
            0 <= rand_sq.1 < SCALE,
        ensures
            d == match *self {
                Pdf::Cosine(n) => cos_dir_spec(n, rand_sq),
                Pdf::ObjectDir(o, origin) => crate::object::sample_towards_spec(
                    o,
                    origin,
                    rand_sq,
                ).dir,
            },
            bounded(d, SCALE as int),
    {
        match self {
            Pdf::Cosine(n) => {
                match crate::onb::uvw_basis(*n) {
                    None => *n,
                    Some((u, v)) => {
                        let lv = Vec3 {
                            x: 2 * rand_sq.0 - SCALE,
                            y: 2 * rand_sq.1 - SCALE,
                            z: 1 + (rand_sq.0 + rand_sq.1) / 2,
                        };
                        let world = crate::onb::to_uvw_basis(lv, u, v, *n);
                        match normalize_dir(world) {
                            None => *n,
                            Some(dd) => dd,
                        }
                    },
                }
            },
            Pdf::ObjectDir(o, origin) => {
                let r = o.sample_towards(*origin, rand_sq);
                r.dir
            },
        }
    }

    /// The strategy's density at a direction, with respect to solid angle.
    pub fn pdf_val(&self, dir: Vec3) -> (v: i64)
        requires
            pdf_wf(*self),
            bounded(dir, SCALE as int),
        ensures
            v as int == match *self {
                Pdf::Cosine(n) => cos_pdf_spec(n, dir),
                Pdf::ObjectDir(o, origin) => obj_pdf_spec(o, origin, dir),
            },
            v >= 0,
    {
        match self {
            Pdf::Cosine(n) => {
                proof {
                    crate::vec3::lemma_dot3_bound(*n, dir, SCALE as int, SCALE as int);
                }
                let d = dot3e(*n, dir);
                if d > 0 {
                    crate::math::div_trunc_i64(d, PI_FP)
                } else {
                    0
                }
            },
            Pdf::ObjectDir(o, origin) => {
                let r = Ray { origin: *origin, dir, depth: 0 };
                match o.intersect(&r, EPSILON + 1, T_LIMIT, 0) {
                    None => 0,
                    Some(hl) => o.sample_towards_pdf(*origin, dir, &hl),
                }
            },
        }
    }
}

} // verus!
