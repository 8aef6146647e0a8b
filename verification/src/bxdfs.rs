//! Scattering rules per material: how a hit turns an incoming ray into the
//! next ray of the path, or absorbs it.

use vstd::prelude::*;

verus! {

use crate::MAX_DEPTH;
use crate::SCALE;
use crate::hit::Hit;
use crate::hit::hit_wf;
use crate::illumination::reflect_dir_spec;
use crate::illumination::refract_dir_spec;
use crate::material::Material;
use crate::onb::to_uvw_basis;
use crate::onb::uvw_basis;
use crate::ray::Ray;
use crate::ray::ray_wf;
use crate::rng::Rng;
use crate::rng::lcg_next;
use crate::vec3::normalize_dir;

/// The scattered direction of a diffuse bounce as a function of the hit and
/// the stream state: a hemisphere jitter in the local frame about the
/// normal, normalized; nothing when the frame or the direction degenerates
/// or rounding drops the direction below the surface.
pub open spec fn diffuse_dir_spec(h: Hit, st: u64) -> Option<crate::vec3::Vec3> {
    match crate::onb::uvw_spec(h.n) {
        None => None,
        Some(uv) => {
            let lv = crate::vec3::Vec3 {
                x: (2 * crate::rng::draw_of(lcg_next(st)) - crate::SCALE) as i64,
                y: (2 * crate::rng::draw_of(lcg_next(lcg_next(st))) - crate::SCALE) as i64,
                z: (crate::rng::draw_of(lcg_next(lcg_next(lcg_next(st)))) + 1) as i64,
            };
            match crate::vec3::normalize_spec(crate::onb::to_uvw_spec(lv, uv.0, uv.1, h.n)) {
                None => None,
                Some(d) => if crate::vec3::dot3(d, h.n) <= 0 {
                    None
                } else {
                    Some(d)
                },
            }
        },
    }
}

/// Diffuse scattering: a hemisphere sample about the normal, carried into
/// world space through the local frame, then normalized.  Consumes exactly
/// three draws of the stream, none when the local frame degenerates.
pub fn diffuse_bsdf(h: &Hit, r: &Ray, rng: &mut Rng) -> (res: Option<Ray>)
    requires
        hit_wf(*h),
        ray_wf(*r),
        r.depth <= MAX_DEPTH,
    ensures
        res == match diffuse_dir_spec(*h, old(rng).state) {
            None => None::<Ray>,
            Some(dir) => Some(Ray { origin: h.p, dir, depth: (r.depth + 1) as usize }),
        },
        crate::onb::uvw_spec(h.n) is Some ==> final(rng).state == lcg_next(
            lcg_next(lcg_next(old(rng).state)),
        ),
        crate::onb::uvw_spec(h.n) is None ==> final(rng).state == old(rng).state,
        res matches Some(nr) ==> ray_wf(nr) && nr.origin == h.p && nr.depth == r.depth + 1
            && crate::vec3::dot3(nr.dir, h.n) > 0,
{
    match uvw_basis(h.n) {
        None => None,
        Some((u, v)) => {
            let lv = rng.rand_local_hemisphere();
            let world = to_uvw_basis(lv, u, v, h.n);
            match normalize_dir(world) {
                None => None,
                Some(d) => {
                    proof {
                        crate::vec3::lemma_dot3_bound(d, h.n, crate::SCALE as int, crate::SCALE as int);
                    }
                    let c = crate::vec3::dot3e(d, h.n);
                    if c <= 0 {
                        // frame rounding can push a shallow sample below the
                        // surface: treat that as no scatter
                        None
                    } else {
                        Some(Ray::new(h.p, d, r.depth))
                    }
                },
            }
        },
    }
}

/// Perfect specular reflection of the incoming direction about the normal.
pub fn mirror_bsdf(h: &Hit, r: &Ray) -> (res: Option<Ray>)
    requires
        hit_wf(*h),
        ray_wf(*r),
        r.depth <= MAX_DEPTH,
    ensures
        res == match reflect_dir_spec(r.dir, h.n) {
            None => None::<Ray>,
            Some(dir) => Some(Ray { origin: h.p, dir, depth: (r.depth + 1) as usize }),
        },
        res matches Some(nr) ==> ray_wf(nr) && nr.depth == r.depth + 1,
{
    crate::illumination::reflect_ray(h, r)
}

/// Snell-Descartes refraction with the total-internal-reflection fallback.
pub fn glass_bsdf(h: &Hit, r: &Ray) -> (res: Option<Ray>)
    requires
        hit_wf(*h),
        ray_wf(*r),
        r.depth <= MAX_DEPTH,
    ensures
        res == match refract_dir_spec(r.dir, h.n) {
            None => None::<Ray>,
            Some(dir) => Some(Ray { origin: h.p, dir, depth: (r.depth + 1) as usize }),
        },
        res matches Some(nr) ==> ray_wf(nr) && nr.depth == r.depth + 1,
{
    crate::illumination::refract_ray(h, r)
}

impl Material {
    /// The deterministic part of scattering: specular materials bend the
    /// ray, every other material absorbs it here (diffuse bounces are
    /// sampled separately, with explicit randomness).
    pub fn bsdf(&self, h: &Hit, r: &Ray) -> (res: Option<Ray>)
        requires
            hit_wf(*h),
            ray_wf(*r),
            r.depth <= MAX_DEPTH,
        ensures
            res == match *self {
                Material::Mirror => match reflect_dir_spec(r.dir, h.n) {
                    None => None::<Ray>,
                    Some(dir) => Some(Ray { origin: h.p, dir, depth: (r.depth + 1) as usize }),
                },
                Material::Glass => match refract_dir_spec(r.dir, h.n) {
                    None => None::<Ray>,
                    Some(dir) => Some(Ray { origin: h.p, dir, depth: (r.depth + 1) as usize }),
                },
                _ => None::<Ray>,
            },
            res matches Some(nr) ==> ray_wf(nr) && nr.depth == r.depth + 1,
    {
        match self {
            Material::Mirror => mirror_bsdf(h, r),
            Material::Glass => glass_bsdf(h, r),
            _ => None,
        }
    }
}

} // verus!
