//! Rays: the value type that threads a light path through the scene.

use vstd::prelude::*;

verus! {

use crate::COORD_MAX;
use crate::MAX_DEPTH;
use crate::SCALE;
use crate::T_LIMIT;
use crate::hit::Hit;
use crate::hit::hit_wf;
use crate::material::Material;
use crate::scene::Scene;
use crate::scene::nearest_hit;
use crate::scene::scene_wf;
use crate::vec3::zero_v;
use crate::math::div_trunc;
use crate::math::iabs;
use crate::math::lemma_mul_bound;
use crate::vec3::Vec3;
use crate::vec3::bounded;

/// A ray with the number of bounces taken since the camera.
#[derive(Clone, Copy, PartialEq, Eq, Structural, Debug)]
pub struct Ray {
    pub origin: Vec3,
    pub dir: Vec3,
    pub depth: usize,
}

/// Origin inside the world box, direction of unit length in fixed point.
pub open spec fn ray_wf(r: Ray) -> bool {
    &&& bounded(r.origin, COORD_MAX as int)
    &&& bounded(r.dir, SCALE as int)
}

/// The point at parameter `t` along the ray, in exact integer terms.
pub open spec fn ray_at_spec(r: Ray, t: int) -> Vec3 {
    Vec3 {
        x: (r.origin.x + div_trunc(t * r.dir.x, SCALE as int)) as i64,
        y: (r.origin.y + div_trunc(t * r.dir.y, SCALE as int)) as i64,
        z: (r.origin.z + div_trunc(t * r.dir.z, SCALE as int)) as i64,
    }
}

impl Ray {
    /// A ray spawned at a scatter event: one bounce deeper than its parent.
    pub fn new(origin: Vec3, dir: Vec3, depth: usize) -> (r: Self)
        requires
            depth < usize::MAX,
        ensures
            r.origin == origin,
            r.dir == dir,
            r.depth == depth + 1,
    {
        Self { origin, dir, depth: depth + 1 }
    }

    /// The point reached after traveling `t` (fixed point) along the ray.
    pub fn at(&self, t: i64) -> (p: Vec3)
        requires
            ray_wf(*self),
            0 <= t <= T_LIMIT,
        ensures
            p == ray_at_spec(*self, t as int),
            bounded(p, COORD_MAX as int + T_LIMIT as int),
    {
        proof {
            lemma_mul_bound(t as int, self.dir.x as int, T_LIMIT as int, SCALE as int);
            lemma_mul_bound(t as int, self.dir.y as int, T_LIMIT as int, SCALE as int);
            lemma_mul_bound(t as int, self.dir.z as int, T_LIMIT as int, SCALE as int);
            assert(self.dir.x * t == t * self.dir.x) by (nonlinear_arith);
            assert(self.dir.y * t == t * self.dir.y) by (nonlinear_arith);
            assert(self.dir.z * t == t * self.dir.z) by (nonlinear_arith);
        }
        let step: Vec3 = crate::vec3::mul_div3(self.dir, t, SCALE);
        proof {
            crate::math::lemma_div_le(iabs(t * self.dir.x), SCALE as int, T_LIMIT as int);
            crate::math::lemma_div_le(iabs(t * self.dir.y), SCALE as int, T_LIMIT as int);
            crate::math::lemma_div_le(iabs(t * self.dir.z), SCALE as int, T_LIMIT as int);
        }
        crate::vec3::add3(self.origin, step)
    }
}

/// Bounces left before the depth cap ends the path.
pub open spec fn fuel(depth: int) -> nat {
    if depth > MAX_DEPTH {
        0nat
    } else {
        (MAX_DEPTH + 1 - depth) as nat
    }
}

/// The radiance of a ray that escapes the scene.
pub open spec fn background() -> Vec3 {
    Vec3 { x: 0, y: SCALE, z: 0 }
}

/// What `Ray::color` returns, as a total function of scene and ray: the
/// recursion is deterministic, so two evaluations on equal inputs agree.
pub open spec fn color_spec(s: Scene, r: Ray) -> Vec3
    decreases fuel(r.depth as int), 1int,
{
    if r.depth > MAX_DEPTH {
        zero_v()
    } else {
        match nearest_hit(s.objects@, r, s.objects.len() as int) {
            None => background(),
            Some(h) => material_color_spec(s, h, r),
        }
    }
}

/// The radiance a surface returns for an incoming ray: emission for
/// emitters, the Phong model at diffuse and glossy hits, and a recursive
/// bounce through mirrors and glass.
pub open spec fn material_color_spec(s: Scene, h: Hit, r: Ray) -> Vec3
    decreases fuel(r.depth as int), 0int,
{
    if r.depth > MAX_DEPTH {
        zero_v()
    } else {
        let m = crate::object::material_spec(s.objects[h.object as int]);
        match m {
            Material::Emissive(e) => e,
            Material::Diffuse(a) => crate::illumination::phong_spec(a, h, zero_v(), 1, s),
            Material::Phong(c, sc, q) => crate::illumination::phong_spec(c, h, sc, q, s),
            Material::Mirror => match crate::illumination::reflect_dir_spec(r.dir, h.n) {
                None => zero_v(),
                Some(dir) => color_spec(
                    s,
                    Ray { origin: h.p, dir, depth: (r.depth + 1) as usize },
                ),
            },
            Material::Glass => match crate::illumination::refract_dir_spec(r.dir, h.n) {
                None => zero_v(),
                Some(dir) => color_spec(
                    s,
                    Ray { origin: h.p, dir, depth: (r.depth + 1) as usize },
                ),
            },
        }
    }
}

impl Ray {
    /// The radiance arriving along this ray.  Deterministic: the result is
    /// pinned to `color_spec`, a function of scene and ray alone.  A ray
    /// past the depth cap contributes zero; a ray that hits nothing returns
    /// the background exactly.
    pub fn color(&self, scene: &Scene) -> (c: Vec3)
        requires
            scene_wf(*scene),
            ray_wf(*self),
        ensures
            c == color_spec(*scene, *self),
            self.depth > MAX_DEPTH ==> c == zero_v(),
            (self.depth <= MAX_DEPTH && nearest_hit(
                scene.objects@,
                *self,
                scene.objects.len() as int,
            ) is None) ==> c == background(),
            c.x >= 0 && c.y >= 0 && c.z >= 0,
        decreases fuel(self.depth as int), 1int,
    {
        if self.depth > MAX_DEPTH {
            return Vec3 { x: 0, y: 0, z: 0 };
        }
        match scene.hit(self) {
            None => Vec3 { x: 0, y: SCALE, z: 0 },
            Some(h) => {
                let m = *self.object_material(scene, &h);
                m.color(&h, scene, self)
            },
        }
    }

    /// The material of the object a hit lies on.
    fn object_material<'a>(&self, scene: &'a Scene, h: &Hit) -> (m: &'a Material)
        requires
            scene_wf(*scene),
            h.object < scene.objects.len(),
        ensures
            *m == crate::object::material_spec(scene.objects[h.object as int]),
    {
        scene.objects[h.object].material()
    }
}

impl Material {
    /// Radiance leaving a hit on this material, pinned to
    /// `material_color_spec`.
    pub fn color(&self, h: &Hit, scene: &Scene, r: &Ray) -> (c: Vec3)
        requires
            scene_wf(*scene),
            hit_wf(*h),
            ray_wf(*r),
            r.depth <= MAX_DEPTH,
            h.object < scene.objects.len(),
            *self == crate::object::material_spec(scene.objects[h.object as int]),
        ensures
            c == material_color_spec(*scene, *h, *r),
            c.x >= 0 && c.y >= 0 && c.z >= 0,
        decreases fuel(r.depth as int), 0int,
    {
        proof {
            assert(crate::object::object_wf(scene.objects@[h.object as int]));
        }
        match self {
            Material::Emissive(e) => *e,
            Material::Diffuse(a) => crate::illumination::phong_illum(
                *a,
                h,
                Vec3 { x: 0, y: 0, z: 0 },
                1,
                scene,
            ),
            Material::Phong(cc, sc, q) => crate::illumination::phong_illum(*cc, h, *sc, *q, scene),
            Material::Mirror => match crate::illumination::reflect_ray(h, r) {
                None => Vec3 { x: 0, y: 0, z: 0 },
                Some(nr) => nr.color(scene),
            },
            Material::Glass => match crate::illumination::refract_ray(h, r) {
                None => Vec3 { x: 0, y: 0, z: 0 },
                Some(nr) => nr.color(scene),
            },
        }
    }
}

} // verus!
