//! Shading models: pure data, closed variants, no hidden state.

use vstd::prelude::*;

verus! {

use crate::PI_FP;
use crate::SCALE;
use crate::math::div_trunc;
use crate::vec3::Vec3;
use crate::vec3::bounded;
use crate::vec3::zero_v;

/// Bound on an emitted-radiance channel.
pub const EMIT_MAX: i64 = 65536;

/// The closed set of shading models.
#[derive(Clone, Copy, Debug)]
pub enum Material {
    /// Lambertian surface with the given albedo.
    Diffuse(Vec3),
    /// Perfect specular reflector.
    Mirror,
    /// Dielectric with relative index `ETA_NUM / ETA_DEN`.
    Glass,
    /// Glossy surface: base color, specular coefficient, specular exponent.
    Phong(Vec3, Vec3, u32),
    /// Pure emitter with the given radiance.
    Emissive(Vec3),
}

/// A color channel is a fraction of one: inside `[0, SCALE]`.
pub open spec fn color_wf(c: Vec3) -> bool {
    &&& 0 <= c.x <= SCALE
    &&& 0 <= c.y <= SCALE
    &&& 0 <= c.z <= SCALE
}

pub open spec fn material_wf(m: Material) -> bool {
    match m {
        Material::Diffuse(a) => color_wf(a),
        Material::Mirror => true,
        Material::Glass => true,
        Material::Phong(c, s, q) => color_wf(c) && color_wf(s) && q <= 64,
        Material::Emissive(e) => bounded(e, EMIT_MAX as int) && 0 <= e.x && 0 <= e.y && 0 <= e.z,
    }
}

/// Radiance the material emits at a hit: zero unless it is an emitter.
pub open spec fn emit_spec(m: Material) -> Vec3 {
    match m {
        Material::Emissive(e) => e,
        _ => zero_v(),
    }
}

/// Surface color used when attenuating a path through this material.
pub open spec fn albedo_spec(m: Material) -> Vec3 {
    match m {
        Material::Diffuse(a) => a,
        Material::Phong(c, _, _) => c,
        Material::Emissive(_) => zero_v(),
        _ => Vec3 { x: SCALE, y: SCALE, z: SCALE },
    }
}

/// The Lambertian reflectance density: albedo over pi, componentwise.
pub open spec fn brdf_spec(m: Material) -> Vec3 {
    let a = albedo_spec(m);
    Vec3 {
        x: div_trunc(a.x * SCALE, PI_FP as int) as i64,
        y: div_trunc(a.y * SCALE, PI_FP as int) as i64,
        z: div_trunc(a.z * SCALE, PI_FP as int) as i64,
    }
}

impl Material {
    /// Whether light paths stop here: emitters scatter nothing.
    pub fn is_emissive(&self) -> (r: bool)
        ensures
            r == (self is Emissive),
    {
        match self {
            Material::Emissive(_) => true,
            _ => false,
        }
    }

    /// Emitted radiance at a hit; zero for every non-emissive material.
    pub fn emit(&self) -> (r: Vec3)
        ensures
            r == emit_spec(*self),
    {
        match self {
            Material::Emissive(e) => *e,
            _ => Vec3 { x: 0, y: 0, z: 0 },
        }
    }

    /// The (untextured) surface color at a point.
    pub fn albedo_at(&self, _p: Vec3) -> (r: Vec3)
        ensures
            r == albedo_spec(*self),
    {
        match self {
            Material::Diffuse(a) => *a,
            Material::Phong(c, _, _) => *c,
            Material::Emissive(_) => Vec3 { x: 0, y: 0, z: 0 },
            _ => Vec3 { x: SCALE, y: SCALE, z: SCALE },
        }
    }

    /// The Lambertian reflectance density at a point.
    pub fn brdf(&self, _p: Vec3) -> (r: Vec3)
        requires
            material_wf(*self),
        ensures
            r == brdf_spec(*self),
            0 <= r.x <= SCALE && 0 <= r.y <= SCALE && 0 <= r.z <= SCALE,
    {
        let a = self.albedo_at(_p);
        proof {
            crate::math::lemma_mul_bound(a.x as int, SCALE as int, SCALE as int, SCALE as int);
            crate::math::lemma_mul_bound(a.y as int, SCALE as int, SCALE as int, SCALE as int);
            crate::math::lemma_mul_bound(a.z as int, SCALE as int, SCALE as int, SCALE as int);
            crate::math::lemma_div_le(a.x * SCALE, PI_FP as int, SCALE as int);
            crate::math::lemma_div_le(a.y * SCALE, PI_FP as int, SCALE as int);
            crate::math::lemma_div_le(a.z * SCALE, PI_FP as int, SCALE as int);
        }
        Vec3 {
            x: crate::math::div_trunc_i64(a.x * SCALE, PI_FP),
            y: crate::math::div_trunc_i64(a.y * SCALE, PI_FP),
            z: crate::math::div_trunc_i64(a.z * SCALE, PI_FP),
        }
    }
}

} // verus!
