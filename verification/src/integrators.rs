//! The integrator interface and the standalone direct-lighting integrator.

use vstd::prelude::*;

verus! {

use crate::MAX_DEPTH;
use crate::SCALE;
use crate::hit::Hit;
use crate::hit::hit_wf;
use crate::integrator::light_value;
use crate::math::lemma_mul_bound;
use crate::ray::Ray;
use crate::ray::ray_wf;
use crate::rng::Rng;
use crate::scene::Scene;
use crate::scene::scene_wf;
use crate::vec3::Vec3;
use crate::vec3::zero_v;

/// What the direct-lighting integrator returns, as a function of scene,
/// ray, starting depth and stream state: zero once either depth counter
/// passes the cap, the background on a miss, recursion through specular
/// bounces with both counters advanced by one, and emission plus one light
/// sample at the first non-specular vertex.
pub open spec fn dli_spec(s: Scene, r: Ray, depth: int, st: u64) -> Vec3
    decreases crate::ray::fuel(depth),
{
    if depth > MAX_DEPTH || r.depth > MAX_DEPTH {
        zero_v()
    } else {
        match crate::scene::nearest_hit(s.objects@, r, s.objects.len() as int) {
            None => crate::ray::background(),
            Some(h) => {
                let m = crate::integrator::material_of(s, h);
                match crate::integrator::specular_dir_spec(m, r, h) {
                    Some(dir) => dli_spec(
                        s,
                        Ray { origin: h.p, dir, depth: (r.depth + 1) as usize },
                        depth + 1,
                        st,
                    ),
                    None => crate::integrator::vertex_light_spec(s, h, st),
                }
            },
        }
    }
}

/// A ray that misses every object returns the defined background exactly,
/// deterministically and with no light contribution.
pub proof fn lemma_dli_miss(s: Scene, r: Ray, depth: int, st: u64)
    requires
        depth <= MAX_DEPTH,
        r.depth <= MAX_DEPTH,
        crate::scene::nearest_hit(s.objects@, r, s.objects.len() as int) is None,
    ensures
        dli_spec(s, r, depth, st) == crate::ray::background(),
{
}

/// One radiance estimate per primary ray; every strategy pins its result
/// to its own spec function of the inputs and the stream state, returns
/// zero past the depth cap, and never returns a negative channel.
pub trait Integrator {
    spec fn wf(&self) -> bool;

    spec fn integrate_spec(&self, r: Ray, depth: int, st: u64) -> Vec3;

    fn integrate(&self, r: &Ray, depth: usize, rng: &mut Rng) -> (c: Vec3)
        requires
            self.wf(),
            ray_wf(*r),
        ensures
            c == self.integrate_spec(*r, depth as int, old(rng).state),
            depth > MAX_DEPTH ==> c == zero_v(),
            c.x >= 0 && c.y >= 0 && c.z >= 0,
    ;
}

/// Follows specular bounces and shades the first non-specular vertex with
/// one light sample: cheap, biased toward simple scenes, good for previews.
pub struct DirectLightingIntegrator {
    pub scene: Scene,
}

impl DirectLightingIntegrator {
    pub fn new(s: Scene) -> (r: Self)
        ensures
            r.scene == s,
    {
        Self { scene: s }
    }

    /// One light sample at a vertex, as a scalar weight.
    fn light_at(&self, h: &Hit, rng: &mut Rng) -> (v: i64)
        requires
            scene_wf(self.scene),
            hit_wf(*h),
        ensures
            v as int == crate::integrator::light_value_spec(self.scene, *h, old(rng).state),
            final(rng).state == crate::rng::lcg_next(
                crate::rng::lcg_next(crate::rng::lcg_next(old(rng).state)),
            ),
            0 <= v <= 5 * 4096 * 4096,
    {
        light_value(&self.scene, h, rng)
    }
}

impl Integrator for DirectLightingIntegrator {
    open spec fn wf(&self) -> bool {
        scene_wf(self.scene)
    }

    open spec fn integrate_spec(&self, r: Ray, depth: int, st: u64) -> Vec3 {
        dli_spec(self.scene, r, depth, st)
    }

    fn integrate(&self, r: &Ray, depth: usize, rng: &mut Rng) -> (c: Vec3) {
        let mut cur = *r;
        let mut d = depth;
        loop
            invariant
                scene_wf(self.scene),
                ray_wf(cur),
                depth <= d,
                d <= MAX_DEPTH + 1 || d == depth,
                rng.state == old(rng).state,
                dli_spec(self.scene, *r, depth as int, old(rng).state) == dli_spec(
                    self.scene,
                    cur,
                    d as int,
                    old(rng).state,
                ),
            decreases MAX_DEPTH + 2 - d,
        {
            if d > MAX_DEPTH || cur.depth > MAX_DEPTH {
                return Vec3 { x: 0, y: 0, z: 0 };
            }
            match self.scene.hit(&cur) {
                None => {
                    return Vec3 { x: 0, y: SCALE, z: 0 };
                },
                Some(h) => {
                    proof {
                        assert(crate::object::object_wf(self.scene.objects@[h.object as int]));
                    }
                    let m = *self.scene.objects[h.object].material();
                    match m.bsdf(&h, &cur) {
                        Some(sr) => {
                            cur = sr;
                            d = d + 1;
                        },
                        None => {
                            let la = self.light_at(&h, rng);
                            let e = m.emit();
                            let alb = m.albedo_at(h.p);
                            proof {
                                lemma_mul_bound(
                                    alb.x as int,
                                    la as int,
                                    SCALE as int,
                                    5 * 4096 * 4096int,
                                );
                                lemma_mul_bound(
                                    alb.y as int,
                                    la as int,
                                    SCALE as int,
                                    5 * 4096 * 4096int,
                                );
                                lemma_mul_bound(
                                    alb.z as int,
                                    la as int,
                                    SCALE as int,
                                    5 * 4096 * 4096int,
                                );
                                assert(alb.x * la >= 0 && alb.y * la >= 0 && alb.z * la >= 0)
                                    by (nonlinear_arith)
                                    requires
                                        alb.x >= 0,
                                        alb.y >= 0,
                                        alb.z >= 0,
                                        la >= 0;
                            }
                            return Vec3 {
                                x: e.x + crate::math::div_trunc_i64(alb.x * la, SCALE),
                                y: e.y + crate::math::div_trunc_i64(alb.y * la, SCALE),
                                z: e.z + crate::math::div_trunc_i64(alb.z * la, SCALE),
                            };
                        },
                    }
                },
            }
        }
    }
}

} // verus!
