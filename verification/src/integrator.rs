//! The light-transport estimators: path tracing with Russian roulette and
//! next-event estimation, a direct-lighting diagnostic mode, and a simple
//! two-subpath variant, all behind one dispatch enum.

use vstd::prelude::*;

verus! {

use crate::MAX_DEPTH;
use crate::RR_STOP;
use crate::SCALE;
use crate::bxdfs::diffuse_bsdf;
use crate::bxdfs::glass_bsdf;
use crate::bxdfs::mirror_bsdf;
use crate::hit::Hit;
use crate::hit::hit_wf;
use crate::material::Material;
use crate::math::div_trunc;
use crate::math::lemma_div_le;
use crate::math::lemma_mul_bound;
use crate::ray::Ray;
use crate::ray::background;
use crate::ray::ray_wf;
use crate::rng::Rng;
use crate::scene::Scene;
use crate::scene::nearest_hit;
use crate::scene::scene_wf;
use crate::vec3::Vec3;
use crate::vec3::dot3e;
use crate::vec3::zero_v;

/// Enum to choose which integrator drives a render.
#[derive(Clone, Copy, Debug)]
pub enum Integrator {
    PathTrace,
    DirectLight,
    BDPathTrace,
}

impl Integrator {
    /// One radiance estimate for a primary ray: exactly the chosen
    /// strategy's value on the scene, ray, and stream state.  Whatever the
    /// strategy: a ray past the depth cap yields zero without touching the
    /// scene, a ray that hits nothing yields the background exactly, and
    /// the estimate is never negative.
    pub fn integrate(&self, s: &Scene, r: &Ray, rng: &mut Rng) -> (c: Vec3)
        requires
            scene_wf(*s),
            ray_wf(*r),
        ensures
            c == match *self {
                Integrator::PathTrace => path_trace_spec(*s, *r, old(rng).state).0,
                Integrator::DirectLight => direct_light_spec(*s, *r, old(rng).state),
                Integrator::BDPathTrace => bd_path_trace_spec(*s, *r, old(rng).state),
            },
            *self is PathTrace ==> final(rng).state == path_trace_spec(
                *s,
                *r,
                old(rng).state,
            ).1,
            r.depth > MAX_DEPTH ==> c == zero_v(),
            (r.depth <= MAX_DEPTH && nearest_hit(s.objects@, *r, s.objects.len() as int)
                is None) ==> c == background(),
            c.x >= 0 && c.y >= 0 && c.z >= 0,
    {
        match self {
            Integrator::PathTrace => path_trace(s, r, rng),
            Integrator::DirectLight => direct_light(s, r, rng),
            Integrator::BDPathTrace => bd_path_trace(s, r, rng),
        }
    }
}

/// The material at a hit's object.
pub open spec fn material_of(s: Scene, h: Hit) -> Material {
    crate::object::material_spec(s.objects[h.object as int])
}

/// The deterministic scattered direction of a specular material, nothing
/// for every other material.
pub open spec fn specular_dir_spec(m: Material, r: Ray, h: Hit) -> Option<Vec3> {
    match m {
        Material::Mirror => crate::illumination::reflect_dir_spec(r.dir, h.n),
        Material::Glass => crate::illumination::refract_dir_spec(r.dir, h.n),
        _ => None,
    }
}

/// Componentwise sum of two colors.
pub open spec fn add_v3(a: Vec3, b: Vec3) -> Vec3 {
    Vec3 { x: (a.x + b.x) as i64, y: (a.y + b.y) as i64, z: (a.z + b.z) as i64 }
}

/// Componentwise fixed-point product of a throughput and a radiance.
pub open spec fn att_spec(a: Vec3, b: Vec3) -> Vec3 {
    Vec3 {
        x: div_trunc(a.x * b.x, SCALE as int) as i64,
        y: div_trunc(a.y * b.y, SCALE as int) as i64,
        z: div_trunc(a.z * b.z, SCALE as int) as i64,
    }
}

/// What shading a non-specular vertex returns in the direct-lighting mode:
/// emission plus the surface color weighted by one light sample.
pub open spec fn vertex_light_spec(s: Scene, h: Hit, st: u64) -> Vec3 {
    let m = material_of(s, h);
    let e = crate::material::emit_spec(m);
    let alb = crate::material::albedo_spec(m);
    let lv = light_value_spec(s, h, st);
    Vec3 {
        x: (e.x + div_trunc(alb.x * lv, SCALE as int)) as i64,
        y: (e.y + div_trunc(alb.y * lv, SCALE as int)) as i64,
        z: (e.z + div_trunc(alb.z * lv, SCALE as int)) as i64,
    }
}

/// What the direct-lighting walk returns, as a function of scene, ray and
/// stream state: zero past the depth cap, the background on a miss,
/// recursion through specular bounces, and one light sample at the first
/// non-specular vertex.
pub open spec fn direct_light_spec(s: Scene, r: Ray, st: u64) -> Vec3
    decreases crate::ray::fuel(r.depth as int),
{
    if r.depth > MAX_DEPTH {
        zero_v()
    } else {
        match nearest_hit(s.objects@, r, s.objects.len() as int) {
            None => background(),
            Some(h) => {
                let m = material_of(s, h);
                match specular_dir_spec(m, r, h) {
                    Some(dir) => direct_light_spec(
                        s,
                        Ray { origin: h.p, dir, depth: (r.depth + 1) as usize },
                        st,
                    ),
                    None => vertex_light_spec(s, h, st),
                }
            },
        }
    }
}

/// Russian roulette is unbiased.  A path terminates with probability
/// `p / SCALE` and contributes zero; otherwise it survives and its value is
/// rescaled to `v * SCALE / (SCALE - p)`.  Weighted over the two outcomes,
/// the expectation equals the plain value `v` (both sides carry the common
/// factor `SCALE`): this holds exactly whenever the rescaling divides
/// evenly, which the divisibility hypothesis states.
pub proof fn lemma_roulette_unbiased(v: int, p: int)
    requires
        0 <= p < SCALE,
        (v * SCALE) % (SCALE - p) == 0,
    ensures
        p * 0 + (SCALE - p) * ((v * SCALE) / (SCALE - p)) == SCALE * v,
{
    vstd::arithmetic::div_mod::lemma_fundamental_div_mod(v * SCALE, SCALE - p);
    assert(v * SCALE == SCALE * v) by (nonlinear_arith);
}

/// Throughput-weighted attenuation of a radiance value: the componentwise
/// fixed-point product.
fn attenuate(a: Vec3, b: Vec3) -> (r: Vec3)
    requires
        0 <= a.x <= 65536 && 0 <= a.y <= 65536 && 0 <= a.z <= 65536,
        0 <= b.x <= 0x400_0000 && 0 <= b.y <= 0x400_0000 && 0 <= b.z <= 0x400_0000,
    ensures
        r == att_spec(a, b),
        r.x as int == div_trunc(a.x * b.x, SCALE as int),
        r.y as int == div_trunc(a.y * b.y, SCALE as int),
        r.z as int == div_trunc(a.z * b.z, SCALE as int),
        0 <= r.x <= 0x4000_0000 && 0 <= r.y <= 0x4000_0000 && 0 <= r.z <= 0x4000_0000,
{
    proof {
        lemma_mul_bound(a.x as int, b.x as int, 65536, 0x400_0000);
        lemma_mul_bound(a.y as int, b.y as int, 65536, 0x400_0000);
        lemma_mul_bound(a.z as int, b.z as int, 65536, 0x400_0000);
        assert(a.x * b.x >= 0) by (nonlinear_arith)
            requires
                a.x >= 0,
                b.x >= 0;
        assert(a.y * b.y >= 0) by (nonlinear_arith)
            requires
                a.y >= 0,
                b.y >= 0;
        assert(a.z * b.z >= 0) by (nonlinear_arith)
            requires
                a.z >= 0,
                b.z >= 0;
        lemma_div_le(a.x * b.x, SCALE as int, 0x4000_0000);
        lemma_div_le(a.y * b.y, SCALE as int, 0x4000_0000);
        lemma_div_le(a.z * b.z, SCALE as int, 0x4000_0000);
    }
    Vec3 {
        x: crate::math::div_trunc_i64(a.x * b.x, SCALE),
        y: crate::math::div_trunc_i64(a.y * b.y, SCALE),
        z: crate::math::div_trunc_i64(a.z * b.z, SCALE),
    }
}

/// One channel of the surviving throughput: attenuated by the albedo, then
/// rescaled by the reciprocal survival probability of the roulette, and
/// capped so the weight stays bounded.
pub open spec fn rr_channel_spec(th: int, alb: int) -> int {
    let a = div_trunc(th * alb, SCALE as int);
    let b = div_trunc(a * SCALE, SCALE as int - RR_STOP as int);
    if b > 65536 {
        65536
    } else {
        b
    }
}

/// The surviving throughput after a scatter, channel by channel.
pub open spec fn rr_th_spec(th: Vec3, alb: Vec3) -> Vec3 {
    Vec3 {
        x: rr_channel_spec(th.x as int, alb.x as int) as i64,
        y: rr_channel_spec(th.y as int, alb.y as int) as i64,
        z: rr_channel_spec(th.z as int, alb.z as int) as i64,
    }
}

/// Exec counterpart of `rr_channel_spec`.
fn rr_channel(th: i64, alb: i64) -> (r: i64)
    requires
        0 <= th <= 65536,
        0 <= alb <= SCALE,
    ensures
        r as int == rr_channel_spec(th as int, alb as int),
        0 <= r <= 65536,
{
    proof {
        lemma_mul_bound(th as int, alb as int, 65536, SCALE as int);
        assert(th as int * alb as int >= 0) by (nonlinear_arith)
            requires
                th as int >= 0,
                alb as int >= 0;
        lemma_div_le(th as int * alb as int, SCALE as int, 65536);
    }
    let a: i64 = crate::math::div_trunc_i64(th * alb, SCALE);
    let b: i64 = crate::math::div_trunc_i64(a * SCALE, SCALE - RR_STOP);
    proof {
        lemma_mul_bound(a as int, SCALE as int, 65536, SCALE as int);
        assert(a as int * SCALE as int >= 0) by (nonlinear_arith)
            requires
                a as int >= 0;
    }
    if b > 65536 {
        65536
    } else {
        b
    }
}

/// What one next-event light sample contributes at a hit, exactly: zero
/// unless the hit is diffuse, the chosen light is visible along the sampled
/// shadow ray, and the sampling density is positive; else the reflectance
/// times the incidence cosine over the density, channel by channel.
pub open spec fn shadow_spec(s: Scene, h: Hit, rand_sq: (i64, i64)) -> Vec3 {
    let m = crate::object::material_spec(s.objects[h.object as int]);
    match m {
        Material::Diffuse(_) => {
            let light = s.lights[(rand_sq.0 as int) % (s.lights.len() as int)];
            let lobj = s.objects[light as int];
            let r = crate::object::sample_towards_spec(lobj, h.p, rand_sq);
            match nearest_hit(s.objects@, r, s.objects.len() as int) {
                None => zero_v(),
                Some(hl) => if hl.object != light {
                    zero_v()
                } else {
                    let pdf = crate::object::sphere_pdf_spec(
                        match lobj {
                            crate::object::Object::Sphere(_, rad, _) => rad as int,
                            _ => 1,
                        },
                        h.p,
                        r.dir,
                        hl,
                    );
                    if pdf <= 0 {
                        zero_v()
                    } else {
                        let dcos = crate::math::iabs(crate::vec3::dot3(h.n, r.dir));
                        let br = crate::material::brdf_spec(m);
                        Vec3 {
                            x: div_trunc(br.x * dcos, SCALE * pdf) as i64,
                            y: div_trunc(br.y * dcos, SCALE * pdf) as i64,
                            z: div_trunc(br.z * dcos, SCALE * pdf) as i64,
                        }
                    }
                },
            }
        },
        _ => zero_v(),
    }
}

/// Next-event estimation at a diffuse hit: aim at a uniformly chosen light,
/// test visibility with a shadow ray, and weight the light's radiance
/// transfer by the surface reflectance, the incidence cosine, and the
/// sampling density.  Non-diffuse hits contribute nothing here.
pub fn shadow_ray(scene: &Scene, h: &Hit, rand_sq: (i64, i64)) -> (c: Vec3)
    requires
        scene_wf(*scene),
        hit_wf(*h),
        h.object < scene.objects.len(),
        0 <= rand_sq.0 < SCALE,
        0 <= rand_sq.1 < SCALE,
    ensures
        c == shadow_spec(*scene, *h, rand_sq),
        0 <= c.x <= 0x400_0000 && 0 <= c.y <= 0x400_0000 && 0 <= c.z <= 0x400_0000,
        !(crate::object::material_spec(scene.objects[h.object as int]) is Diffuse) ==> c == zero_v(),
{
    proof {
        assert(crate::object::object_wf(scene.objects@[h.object as int]));
    }
    let m = *scene.objects[h.object].material();
    let is_diffuse = match m {
        Material::Diffuse(_) => true,
        _ => false,
    };
    if !is_diffuse {
        return Vec3 { x: 0, y: 0, z: 0 };
    }
    let light = scene.uniform_random_light(rand_sq.0);
    let lobj = scene.objects[light];
    let r = lobj.sample_towards(h.p, rand_sq);
    match scene.hit_light(&r, light) {
        None => Vec3 { x: 0, y: 0, z: 0 },
        Some(hl) => {
            let pdf = lobj.sample_towards_pdf(h.p, r.dir, &hl);
            if pdf <= 0 {
                return Vec3 { x: 0, y: 0, z: 0 };
            }
            let brdf = m.brdf(h.p);
            proof {
                crate::vec3::lemma_dot3_bound(h.n, r.dir, SCALE as int, SCALE as int);
            }
            let dc0: i64 = dot3e(h.n, r.dir);
            let dcos: i64 = if dc0 < 0 {
                -dc0
            } else {
                dc0
            };
            let cx = transfer_channel(brdf.x, dcos, pdf);
            let cy = transfer_channel(brdf.y, dcos, pdf);
            let cz = transfer_channel(brdf.z, dcos, pdf);
            Vec3 { x: cx, y: cy, z: cz }
        },
    }
}

/// One channel of the light-transfer weight `brdf * cos / pdf`.
fn transfer_channel(br: i64, dcos: i64, pdf: i64) -> (r: i64)
    requires
        0 <= br <= SCALE,
        0 <= dcos <= 3 * 4096 * 4096,
        1 <= pdf,
    ensures
        r as int == div_trunc(br * dcos, SCALE * pdf),
        0 <= r <= 0x400_0000,
{
    proof {
        lemma_mul_bound(br as int, dcos as int, SCALE as int, 3 * 4096 * 4096int);
        assert(br as int * dcos as int >= 0) by (nonlinear_arith)
            requires
                br as int >= 0,
                dcos as int >= 0;
    }
    let num: i128 = (br as i128) * (dcos as i128);
    let den: i128 = (SCALE as i128) * (pdf as i128);
    proof {
        lemma_mul_bound(SCALE as int, pdf as int, SCALE as int, 0x7FFF_FFFF_FFFF_FFFF);
        assert((SCALE as int) * (pdf as int) >= SCALE as int) by (nonlinear_arith)
            requires
                pdf as int >= 1;
        lemma_div_le(br as int * dcos as int, (SCALE as int) * (pdf as int), 0x400_0000);
        assert(br as int * dcos as int <= (SCALE as int) * (pdf as int) * 0x400_0000)
            by (nonlinear_arith)
            requires
                br as int * dcos as int <= 3 * 4096int * 4096 * 4096,
                (SCALE as int) * (pdf as int) >= SCALE as int;
    }
    let q: i128 = crate::math::div_trunc_i128(num, den);
    q as i64
}

/// One step short of the full path-trace value: the color and final stream
/// state the walk produces from a hit `h` on ray `r`, with throughput `th`
/// and the radiance gathered so far in `acc`.  Each vertex adds its
/// weighted emission; a diffuse vertex adds a next-event light sample (two
/// draws); a roulette draw may end the path; a surviving scatter attenuates
/// the throughput, rescales it by the reciprocal survival probability, and
/// walks on (three more draws at diffuse vertices).
pub open spec fn pt_walk_spec(s: Scene, h: Hit, r: Ray, th: Vec3, acc: Vec3, st: u64) -> (
    Vec3,
    u64,
)
    decreases crate::ray::fuel(r.depth as int),
{
    if r.depth > MAX_DEPTH {
        (acc, st)
    } else {
        let m = material_of(s, h);
        let acc1 = add_v3(acc, att_spec(th, crate::material::emit_spec(m)));
        if m is Emissive {
            (acc1, st)
        } else {
            let diffuse = m is Diffuse;
            let sq = (
                crate::rng::draw_of(crate::rng::lcg_next(st)),
                crate::rng::draw_of(crate::rng::lcg_next(crate::rng::lcg_next(st))),
            );
            let acc2 = if diffuse {
                add_v3(acc1, att_spec(th, shadow_spec(s, h, sq)))
            } else {
                acc1
            };
            let st1 = if diffuse {
                crate::rng::lcg_next(crate::rng::lcg_next(st))
            } else {
                st
            };
            let st2 = crate::rng::lcg_next(st1);
            if crate::rng::draw_of(st2) < RR_STOP {
                (acc2, st2)
            } else {
                let dir_o = match m {
                    Material::Diffuse(_) => crate::bxdfs::diffuse_dir_spec(h, st2),
                    Material::Mirror => crate::illumination::reflect_dir_spec(r.dir, h.n),
                    Material::Glass => crate::illumination::refract_dir_spec(r.dir, h.n),
                    _ => None,
                };
                let st3 = if diffuse && crate::onb::uvw_spec(h.n) is Some {
                    crate::rng::lcg_next(crate::rng::lcg_next(crate::rng::lcg_next(st2)))
                } else {
                    st2
                };
                match dir_o {
                    None => (acc2, st3),
                    Some(dir) => {
                        let th2 = rr_th_spec(th, crate::material::albedo_spec(m));
                        let nr = Ray { origin: h.p, dir, depth: (r.depth + 1) as usize };
                        match nearest_hit(s.objects@, nr, s.objects.len() as int) {
                            None => (add_v3(acc2, att_spec(th2, background())), st3),
                            Some(nh) => pt_walk_spec(s, nh, nr, th2, acc2, st3),
                        }
                    },
                }
            }
        }
    }
}

/// What the path tracer returns together with its final stream state, as a
/// function of scene, ray and starting stream state.
pub open spec fn path_trace_spec(s: Scene, r: Ray, st: u64) -> (Vec3, u64) {
    if r.depth > MAX_DEPTH {
        (zero_v(), st)
    } else {
        match nearest_hit(s.objects@, r, s.objects.len() as int) {
            None => (background(), st),
            Some(h0) => pt_walk_spec(
                s,
                h0,
                r,
                Vec3 { x: SCALE, y: SCALE, z: SCALE },
                zero_v(),
                st,
            ),
        }
    }
}

/// Forward path tracing with next-event estimation at diffuse vertices and
/// Russian-roulette termination, the surviving weight rescaled by the
/// reciprocal survival probability.  The estimate and the final stream
/// state are pinned to `path_trace_spec`.
#[verifier::rlimit(80)]
pub fn path_trace(s: &Scene, r: &Ray, rng: &mut Rng) -> (c: Vec3)
    requires
        scene_wf(*s),
        ray_wf(*r),
    ensures
        c == path_trace_spec(*s, *r, old(rng).state).0,
        final(rng).state == path_trace_spec(*s, *r, old(rng).state).1,
        r.depth > MAX_DEPTH ==> c == zero_v(),
        (r.depth <= MAX_DEPTH && nearest_hit(s.objects@, *r, s.objects.len() as int) is None)
            ==> c == background(),
        c.x >= 0 && c.y >= 0 && c.z >= 0,
{
    if r.depth > MAX_DEPTH {
        return Vec3 { x: 0, y: 0, z: 0 };
    }
    let first = s.hit(r);
    match first {
        None => Vec3 { x: 0, y: SCALE, z: 0 },
        Some(h0) => {
            let mut cur_h = h0;
            let mut cur_ray = *r;
            let mut acc = Vec3 { x: 0, y: 0, z: 0 };
            let mut th = Vec3 { x: SCALE, y: SCALE, z: SCALE };
            loop
                invariant
                    scene_wf(*s),
                    ray_wf(cur_ray),
                    hit_wf(cur_h),
                    cur_h.object < s.objects.len(),
                    cur_ray.depth <= MAX_DEPTH + 1,
                    r.depth <= MAX_DEPTH,
                    nearest_hit(s.objects@, *r, s.objects.len() as int) is Some,
                    path_trace_spec(*s, *r, old(rng).state) == pt_walk_spec(
                        *s,
                        cur_h,
                        cur_ray,
                        th,
                        acc,
                        rng.state,
                    ),
                    0 <= th.x <= 65536 && 0 <= th.y <= 65536 && 0 <= th.z <= 65536,
                    0 <= acc.x && 0 <= acc.y && 0 <= acc.z,
                    acc.x <= 0x8000_0000 * (1 + cur_ray.depth as int),
                    acc.y <= 0x8000_0000 * (1 + cur_ray.depth as int),
                    acc.z <= 0x8000_0000 * (1 + cur_ray.depth as int),
                decreases MAX_DEPTH + 2 - cur_ray.depth,
            {
                if cur_ray.depth > MAX_DEPTH {
                    return acc;
                }
                proof {
                    assert(crate::object::object_wf(s.objects@[cur_h.object as int]));
                }
                let m = *s.objects[cur_h.object].material();
                let e = m.emit();
                let ec = attenuate(th, e);
                acc = Vec3 { x: acc.x + ec.x, y: acc.y + ec.y, z: acc.z + ec.z };
                let is_emissive = m.is_emissive();
                if is_emissive {
                    return acc;
                }
                let is_diffuse = match m {
                    Material::Diffuse(_) => true,
                    _ => false,
                };
                if is_diffuse {
                    let sq = rng.rand_square();
                    let nee = shadow_ray(s, &cur_h, sq);
                    let nc = attenuate(th, nee);
                    acc = Vec3 { x: acc.x + nc.x, y: acc.y + nc.y, z: acc.z + nc.z };
                }
                let dr = rng.rand_unit();
                if dr < RR_STOP {
                    return acc;
                }
                let nro: Option<Ray> = match m {
                    Material::Diffuse(_) => diffuse_bsdf(&cur_h, &cur_ray, rng),
                    Material::Mirror => mirror_bsdf(&cur_h, &cur_ray),
                    Material::Glass => glass_bsdf(&cur_h, &cur_ray),
                    _ => None,
                };
                match nro {
                    None => {
                        return acc;
                    },
                    Some(nr) => {
                        let alb = m.albedo_at(cur_h.p);
                        th = Vec3 {
                            x: rr_channel(th.x, alb.x),
                            y: rr_channel(th.y, alb.y),
                            z: rr_channel(th.z, alb.z),
                        };
                        cur_ray = nr;
                        match s.hit(&nr) {
                            None => {
                                let bgc = attenuate(th, Vec3 { x: 0, y: SCALE, z: 0 });
                                return Vec3 {
                                    x: acc.x + bgc.x,
                                    y: acc.y + bgc.y,
                                    z: acc.z + bgc.z,
                                };
                            },
                            Some(nh) => {
                                cur_h = nh;
                            },
                        }
                    },
                }
            }
        },
    }
}

/// The direct-lighting diagnostic mode: follow specular bounces, and at the
/// first non-specular vertex return emission plus one light sample.  The
/// result is pinned to `direct_light_spec`; the stream advances only when a
/// light sample is taken.
pub fn direct_light(s: &Scene, r: &Ray, rng: &mut Rng) -> (c: Vec3)
    requires
        scene_wf(*s),
        ray_wf(*r),
    ensures
        c == direct_light_spec(*s, *r, old(rng).state),
        final(rng).state == old(rng).state || final(rng).state == crate::rng::lcg_next(
            crate::rng::lcg_next(crate::rng::lcg_next(old(rng).state)),
        ),
        r.depth > MAX_DEPTH ==> c == zero_v(),
        (r.depth <= MAX_DEPTH && nearest_hit(s.objects@, *r, s.objects.len() as int) is None)
            ==> c == background(),
        c.x >= 0 && c.y >= 0 && c.z >= 0,
{
    let mut cur = *r;
    loop
        invariant
            scene_wf(*s),
            ray_wf(cur),
            cur.depth <= MAX_DEPTH + 1 || cur == *r,
            cur == *r || (r.depth <= MAX_DEPTH && nearest_hit(
                s.objects@,
                *r,
                s.objects.len() as int,
            ) is Some),
            rng.state == old(rng).state,
            direct_light_spec(*s, *r, old(rng).state) == direct_light_spec(
                *s,
                cur,
                old(rng).state,
            ),
        decreases MAX_DEPTH + 2 - cur.depth,
    {
        if cur.depth > MAX_DEPTH {
            return Vec3 { x: 0, y: 0, z: 0 };
        }
        match s.hit(&cur) {
            None => {
                return Vec3 { x: 0, y: SCALE, z: 0 };
            },
            Some(h) => {
                proof {
                    assert(crate::object::object_wf(s.objects@[h.object as int]));
                }
                let m = *s.objects[h.object].material();
                match m.bsdf(&h, &cur) {
                    Some(sr) => {
                        cur = sr;
                    },
                    None => {
                        let la = light_value(s, &h, rng);
                        let e = m.emit();
                        let alb = m.albedo_at(h.p);
                        proof {
                            lemma_mul_bound(alb.x as int, la as int, SCALE as int, 5 * 4096 * 4096int);
                            lemma_mul_bound(alb.y as int, la as int, SCALE as int, 5 * 4096 * 4096int);
                            lemma_mul_bound(alb.z as int, la as int, SCALE as int, 5 * 4096 * 4096int);
                            assert(alb.x * la >= 0 && alb.y * la >= 0 && alb.z * la >= 0)
                                by (nonlinear_arith)
                                requires
                                    alb.x >= 0,
                                    alb.y >= 0,
                                    alb.z >= 0,
                                    la >= 0;
                        }
                        return Vec3 {
                            x: e.x + crate::math::div_trunc_i64(alb.x * la, SCALE),
                            y: e.y + crate::math::div_trunc_i64(alb.y * la, SCALE),
                            z: e.z + crate::math::div_trunc_i64(alb.z * la, SCALE),
                        };
                    },
                }
            },
        }
    }
}

/// The weight `light_value` computes, as a function of scene, hit and the
/// stream state: the first draw picks the light, the next two aim at it;
/// occlusion or a vanishing density yields zero, else the ratio of the
/// cosine-lobe density to the light-sampling density, with the fixed gain.
pub open spec fn light_value_spec(s: Scene, h: Hit, st: u64) -> int {
    let lr = crate::rng::draw_of(crate::rng::lcg_next(st));
    let light = s.lights[(lr as int) % (s.lights.len() as int)];
    let lobj = s.objects[light as int];
    let sq = (
        crate::rng::draw_of(crate::rng::lcg_next(crate::rng::lcg_next(st))),
        crate::rng::draw_of(
            crate::rng::lcg_next(crate::rng::lcg_next(crate::rng::lcg_next(st))),
        ),
    );
    let dir = crate::object::sample_towards_spec(lobj, h.p, sq).dir;
    let sray = Ray { origin: h.p, dir, depth: 1 };
    match nearest_hit(s.objects@, sray, s.objects.len() as int) {
        None => 0,
        Some(hl) => if hl.object != light {
            0
        } else {
            let ps = crate::pdfs::cos_pdf_spec(h.n, dir);
            let pl = crate::pdfs::obj_pdf_spec(lobj, h.p, dir);
            if pl <= 0 {
                0
            } else {
                div_trunc(5 * ps * SCALE, pl)
            }
        },
    }
}

/// The scalar weight of one light sample at a non-specular vertex: the
/// ratio of the cosine-lobe density to the light-sampling density along a
/// direction drawn toward a uniformly chosen light, zero when occluded.
pub fn light_value(s: &Scene, h: &Hit, rng: &mut Rng) -> (v: i64)
    requires
        scene_wf(*s),
        hit_wf(*h),
    ensures
        v as int == light_value_spec(*s, *h, old(rng).state),
        final(rng).state == crate::rng::lcg_next(
            crate::rng::lcg_next(crate::rng::lcg_next(old(rng).state)),
        ),
        0 <= v <= 5 * 4096 * 4096,
{
    let lr = rng.rand_unit();
    let light = s.uniform_random_light(lr);
    let lobj = s.objects[light];
    let pdf_light = crate::pdfs::Pdf::object_dir(lobj, h.p);
    let pdf_scatter = crate::pdfs::Pdf::cosine(h.n);
    let sq = rng.rand_square();
    let dir = pdf_light.generate_dir(sq);
    let sray = Ray { origin: h.p, dir, depth: 1 };
    match s.hit_light(&sray, light) {
        None => 0,
        Some(_) => {
            let ps = pdf_scatter.pdf_val(dir);
            let pl = pdf_light.pdf_val(dir);
            if pl <= 0 {
                return 0;
            }
            proof {
                crate::vec3::lemma_dot3_bound(h.n, dir, SCALE as int, SCALE as int);
                if crate::vec3::dot3(h.n, dir) > 0 {
                    lemma_div_le(crate::vec3::dot3(h.n, dir), crate::PI_FP as int, SCALE as int);
                }
                lemma_mul_bound(5 * (ps as int), SCALE as int, 5 * 4096int, SCALE as int);
                assert(5 * (ps as int) * (SCALE as int) >= 0) by (nonlinear_arith)
                    requires
                        ps as int >= 0;
                assert(5 * (ps as int) * (SCALE as int) <= (pl as int) * (5 * 4096 * 4096int))
                    by (nonlinear_arith)
                    requires
                        0 <= 5 * (ps as int) * (SCALE as int) <= 5 * 4096int * 4096,
                        pl as int >= 1;
                lemma_div_le(5 * (ps as int) * (SCALE as int), pl as int, 5 * 4096 * 4096int);
            }
            crate::math::div_trunc_i64(5 * ps * SCALE, pl)
        },
    }
}

/// One step short of the full two-subpath value: what the camera walk
/// returns from a hit `h` on ray `r` with emission already gathered in
/// `acc`, as a function of the stream state.
pub open spec fn bd_walk_spec(s: Scene, h: Hit, r: Ray, acc: Vec3, st: u64) -> Vec3
    decreases crate::ray::fuel(r.depth as int),
{
    if r.depth > MAX_DEPTH {
        acc
    } else {
        let m = material_of(s, h);
        let acc1 = add_v3(acc, crate::material::emit_spec(m));
        match m {
            Material::Emissive(_) => acc1,
            Material::Mirror | Material::Glass => match specular_dir_spec(m, r, h) {
                None => acc1,
                Some(dir) => {
                    let nr = Ray { origin: h.p, dir, depth: (r.depth + 1) as usize };
                    match nearest_hit(s.objects@, nr, s.objects.len() as int) {
                        None => Vec3 { x: acc1.x, y: (acc1.y + SCALE) as i64, z: acc1.z },
                        Some(nh) => bd_walk_spec(s, nh, nr, acc1, st),
                    }
                },
            },
            Material::Diffuse(_) => {
                let sq = (
                    crate::rng::draw_of(crate::rng::lcg_next(st)),
                    crate::rng::draw_of(crate::rng::lcg_next(crate::rng::lcg_next(st))),
                );
                add_v3(acc1, shadow_spec(s, h, sq))
            },
            Material::Phong(cc, sc, q) => add_v3(
                acc1,
                crate::illumination::phong_spec(cc, h, sc, q, s),
            ),
        }
    }
}

/// What the two-subpath walk returns, as a function of scene, ray and
/// stream state.
pub open spec fn bd_path_trace_spec(s: Scene, r: Ray, st: u64) -> Vec3 {
    if r.depth > MAX_DEPTH {
        zero_v()
    } else {
        match nearest_hit(s.objects@, r, s.objects.len() as int) {
            None => background(),
            Some(h0) => bd_walk_spec(s, h0, r, zero_v(), st),
        }
    }
}

/// The two-subpath variant: the camera subpath walks specular bounces and
/// gathers emission; at the first diffuse vertex it connects to a sampled
/// light vertex; glossy vertices close with their closed-form shading.
/// The result is pinned to `bd_path_trace_spec`; the stream advances only
/// for the light connection.
pub fn bd_path_trace(s: &Scene, r: &Ray, rng: &mut Rng) -> (c: Vec3)
    requires
        scene_wf(*s),
        ray_wf(*r),
    ensures
        c == bd_path_trace_spec(*s, *r, old(rng).state),
        final(rng).state == old(rng).state || final(rng).state == crate::rng::lcg_next(
            crate::rng::lcg_next(old(rng).state),
        ),
        r.depth > MAX_DEPTH ==> c == zero_v(),
        (r.depth <= MAX_DEPTH && nearest_hit(s.objects@, *r, s.objects.len() as int) is None)
            ==> c == background(),
        c.x >= 0 && c.y >= 0 && c.z >= 0,
{
    if r.depth > MAX_DEPTH {
        return Vec3 { x: 0, y: 0, z: 0 };
    }
    let first = s.hit(r);
    match first {
        None => Vec3 { x: 0, y: SCALE, z: 0 },
        Some(h0) => {
            let mut cur_h = h0;
            let mut cur = *r;
            let mut acc = Vec3 { x: 0, y: 0, z: 0 };
            loop
                invariant
                    scene_wf(*s),
                    ray_wf(cur),
                    hit_wf(cur_h),
                    cur_h.object < s.objects.len(),
                    cur.depth <= MAX_DEPTH + 1,
                    r.depth <= MAX_DEPTH,
                    nearest_hit(s.objects@, *r, s.objects.len() as int) is Some,
                    rng.state == old(rng).state,
                    bd_path_trace_spec(*s, *r, old(rng).state) == bd_walk_spec(
                        *s,
                        cur_h,
                        cur,
                        acc,
                        old(rng).state,
                    ),
                    0 <= acc.x && 0 <= acc.y && 0 <= acc.z,
                    acc.x <= 0x8000_0000 * (1 + cur.depth as int),
                    acc.y <= 0x8000_0000 * (1 + cur.depth as int),
                    acc.z <= 0x8000_0000 * (1 + cur.depth as int),
                decreases MAX_DEPTH + 2 - cur.depth,
            {
                if cur.depth > MAX_DEPTH {
                    return acc;
                }
                proof {
                    assert(crate::object::object_wf(s.objects@[cur_h.object as int]));
                }
                let m = *s.objects[cur_h.object].material();
                let e = m.emit();
                acc = Vec3 { x: acc.x + e.x, y: acc.y + e.y, z: acc.z + e.z };
                let is_emissive = m.is_emissive();
                if is_emissive {
                    return acc;
                }
                match m {
                    Material::Mirror | Material::Glass => {
                        match m.bsdf(&cur_h, &cur) {
                            None => {
                                return acc;
                            },
                            Some(nr) => {
                                cur = nr;
                                match s.hit(&nr) {
                                    None => {
                                        return Vec3 {
                                            x: acc.x,
                                            y: acc.y + SCALE,
                                            z: acc.z,
                                        };
                                    },
                                    Some(nh) => {
                                        cur_h = nh;
                                    },
                                }
                            },
                        }
                    },
                    Material::Diffuse(_) => {
                        let sq = rng.rand_square();
                        let nee = shadow_ray(s, &cur_h, sq);
                        return Vec3 { x: acc.x + nee.x, y: acc.y + nee.y, z: acc.z + nee.z };
                    },
                    Material::Phong(cc, sc, q) => {
                        let ph = crate::illumination::phong_illum(cc, &cur_h, sc, q, s);
                        return Vec3 { x: acc.x + ph.x, y: acc.y + ph.y, z: acc.z + ph.z };
                    },
                    _ => {
                        return acc;
                    },
                }
            }
        },
    }
}

} // verus!
