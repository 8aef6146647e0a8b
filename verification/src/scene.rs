//! The immutable scene: object list, light references, ambient term, and the
//! nearest-hit search every integrator relies on.

use vstd::prelude::*;

verus! {

use crate::EPSILON;
use crate::GEOM_MAX;
use crate::SCALE;
use crate::T_LIMIT;
use crate::hit::Hit;
use crate::hit::hit_wf;
use crate::material::Material;
use crate::material::color_wf;
use crate::material::material_wf;
use crate::object::Object;
use crate::object::isect_spec;
use crate::object::object_wf;
use crate::ray::Ray;
use crate::ray::ray_wf;
use crate::vec3::Vec3;
use crate::vec3::bounded;
use crate::vec3::dot3e;

/// Why a scene description was rejected at construction time.
#[derive(Clone, Copy, PartialEq, Eq, Structural, Debug)]
pub enum SceneError {
    /// An object's parameters fall outside the world limits.
    BadObject,
    /// Next-event estimation needs at least one light.
    NoLights,
    /// A light reference is out of range or names a non-emissive object.
    NoSuchLight,
}

#[derive(Debug)]
pub struct Scene {
    pub objects: Vec<Object>,
    pub lights: Vec<usize>,
    pub ambient: Vec3,
}

/// A valid light reference: in range and pointing at an emitter.
pub open spec fn light_ok(objects: Seq<Object>, l: int) -> bool {
    &&& 0 <= l < objects.len()
    &&& objects[l] is Sphere
    &&& crate::object::material_spec(objects[l]) is Emissive
}

pub open spec fn scene_wf(s: Scene) -> bool {
    &&& forall|i: int| 0 <= i < s.objects.len() ==> object_wf(#[trigger] s.objects[i])
    &&& s.lights.len() > 0
    &&& forall|j: int| 0 <= j < s.lights.len() ==> light_ok(s.objects@, #[trigger] s.lights[j] as int)
    &&& color_wf(s.ambient)
}

/// The nearest in-range hit among the first `upto` objects; earlier objects
/// win ties, so the result is the one the sequential search keeps.
pub open spec fn nearest_hit(objects: Seq<Object>, r: Ray, upto: int) -> Option<Hit>
    decreases upto,
{
    if upto <= 0 {
        None
    } else {
        let prev = nearest_hit(objects, r, upto - 1);
        let cur = isect_spec(objects[upto - 1], r, EPSILON + 1, T_LIMIT as int, upto - 1);
        match prev {
            None => cur,
            Some(ph) => match cur {
                None => Some(ph),
                Some(ch) => if ch.t < ph.t {
                    Some(ch)
                } else {
                    Some(ph)
                },
            },
        }
    }
}

/// What the nearest-hit search returns is no farther than any object's own
/// intersection: it is the globally nearest hit.
pub proof fn lemma_nearest_is_min(objects: Seq<Object>, r: Ray, upto: int, i: int)
    requires
        0 <= i < upto,
        isect_spec(objects[i], r, EPSILON + 1, T_LIMIT as int, i) is Some,
    ensures
        nearest_hit(objects, r, upto) is Some,
        nearest_hit(objects, r, upto)->0.t <= isect_spec(
            objects[i],
            r,
            EPSILON + 1,
            T_LIMIT as int,
            i,
        )->0.t,
    decreases upto,
{
    if i < upto - 1 {
        lemma_nearest_is_min(objects, r, upto - 1, i);
    }
}

/// The reference light position closed-form shading points at: the center
/// of the first light (always an emissive sphere in a well-formed scene).
pub open spec fn light_point_spec(s: Scene) -> Vec3 {
    match s.objects[s.lights[0] as int] {
        Object::Sphere(c, _, _) => c,
        _ => crate::vec3::zero_v(),
    }
}

impl Scene {
    /// Center of the first light.
    pub fn light_point(&self) -> (p: Vec3)
        requires
            scene_wf(*self),
        ensures
            p == light_point_spec(*self),
            bounded(p, GEOM_MAX as int),
    {
        match &self.objects[self.lights[0]] {
            Object::Sphere(c, _, _) => *c,
            _ => Vec3 { x: 0, y: 0, z: 0 },
        }
    }

    /// Index of the first light.
    pub fn first_light(&self) -> (l: usize)
        requires
            scene_wf(*self),
        ensures
            l == self.lights[0],
            light_ok(self.objects@, l as int),
    {
        self.lights[0]
    }

    /// Validates a scene description.  Construction fails exactly when an
    /// object is out of bounds, the light list is empty, or a light
    /// reference does not name an emissive sphere.
    pub fn new(objects: Vec<Object>, lights: Vec<usize>, ambient: Vec3) -> (res: Result<
        Scene,
        SceneError,
    >)
        ensures
            res matches Ok(s) ==> scene_wf(s) && s.objects == objects && s.lights == lights
                && s.ambient == ambient,
            res == Err::<Scene, SceneError>(SceneError::BadObject) <==> !(forall|i: int|
                0 <= i < objects.len() ==> object_wf(#[trigger] objects[i])) || !color_wf(ambient),
            (res == Err::<Scene, SceneError>(SceneError::NoLights) <==> (forall|i: int|
                0 <= i < objects.len() ==> object_wf(#[trigger] objects[i])) && color_wf(ambient)
                && lights.len() == 0),
            (res is Err && res != Err::<Scene, SceneError>(SceneError::BadObject) && res
                != Err::<Scene, SceneError>(SceneError::NoLights)) ==> res == Err::<
                Scene,
                SceneError,
            >(SceneError::NoSuchLight) && !(forall|j: int|
                0 <= j < lights.len() ==> light_ok(objects@, #[trigger] lights[j] as int)),
    {
        if !(0 <= ambient.x && ambient.x <= SCALE && 0 <= ambient.y && ambient.y <= SCALE && 0
            <= ambient.z && ambient.z <= SCALE) {
            return Err(SceneError::BadObject);
        }
        let mut i: usize = 0;
        while i < objects.len()
            invariant
                i <= objects.len(),
                forall|k: int| 0 <= k < i ==> object_wf(#[trigger] objects[k]),
            decreases objects.len() - i,
        {
            if !Self::object_check(&objects[i]) {
                return Err(SceneError::BadObject);
            }
            i = i + 1;
        }
        if lights.len() == 0 {
            return Err(SceneError::NoLights);
        }
        let mut j: usize = 0;
        while j < lights.len()
            invariant
                j <= lights.len(),
                lights.len() > 0,
                color_wf(ambient),
                forall|i: int| 0 <= i < objects.len() ==> object_wf(#[trigger] objects[i]),
                forall|k: int| 0 <= k < j ==> light_ok(objects@, #[trigger] lights[k] as int),
            decreases lights.len() - j,
        {
            let l = lights[j];
            if l >= objects.len() {
                return Err(SceneError::NoSuchLight);
            }
            let emissive_sphere = match &objects[l] {
                Object::Sphere(_, _, Material::Emissive(_)) => true,
                _ => false,
            };
            if !emissive_sphere {
                return Err(SceneError::NoSuchLight);
            }
            j = j + 1;
        }
        Ok(Scene { objects, lights, ambient })
    }

    /// Whether one object's parameters lie inside the world limits.
    fn object_check(o: &Object) -> (b: bool)
        ensures
            b == object_wf(*o),
    {
        match o {
            Object::Sphere(c, rad, m) => {
                let cb = -GEOM_MAX <= c.x && c.x <= GEOM_MAX && -GEOM_MAX <= c.y && c.y <= GEOM_MAX
                    && -GEOM_MAX <= c.z && c.z <= GEOM_MAX;
                cb && 0 < *rad && *rad <= GEOM_MAX && Self::material_check(m)
            },
            Object::Plane(n, d, m) => {
                let nb = -SCALE <= n.x && n.x <= SCALE && -SCALE <= n.y && n.y <= SCALE && -SCALE
                    <= n.z && n.z <= SCALE;
                if !nb {
                    false
                } else {
                    let nn = dot3e(*n, *n);
                    nn > 0 && -GEOM_MAX <= *d && *d <= GEOM_MAX && Self::material_check(m)
                }
            },
            Object::Rectangle(q, e1, e2, m) => {
                let em = crate::object::EDGE_MAX;
                let qb = -GEOM_MAX <= q.x && q.x <= GEOM_MAX && -GEOM_MAX <= q.y && q.y <= GEOM_MAX
                    && -GEOM_MAX <= q.z && q.z <= GEOM_MAX;
                let eb = -em <= e1.x && e1.x <= em && -em <= e1.y && e1.y <= em && -em <= e1.z
                    && e1.z <= em && -em <= e2.x && e2.x <= em && -em <= e2.y && e2.y <= em && -em
                    <= e2.z && e2.z <= em;
                if !qb || !eb {
                    false
                } else if dot3e(*e1, *e2) != 0 {
                    false
                } else {
                    let cr = crate::vec3::cross3(*e1, *e2);
                    proof {
                        crate::math::lemma_mul_bound(e1.y as int, e2.z as int, em as int, em as int);
                        crate::math::lemma_mul_bound(e1.z as int, e2.y as int, em as int, em as int);
                        crate::math::lemma_mul_bound(e1.z as int, e2.x as int, em as int, em as int);
                        crate::math::lemma_mul_bound(e1.x as int, e2.z as int, em as int, em as int);
                        crate::math::lemma_mul_bound(e1.x as int, e2.y as int, em as int, em as int);
                        crate::math::lemma_mul_bound(e1.y as int, e2.x as int, em as int, em as int);
                    }
                    let nz = match crate::vec3::normalize_dir(cr) {
                        Some(_) => true,
                        None => false,
                    };
                    nz && Self::material_check(m)
                }
            },
            Object::Cuboid(lo, hi, m) => {
                let lb = -GEOM_MAX <= lo.x && lo.x <= GEOM_MAX && -GEOM_MAX <= lo.y && lo.y
                    <= GEOM_MAX && -GEOM_MAX <= lo.z && lo.z <= GEOM_MAX;
                let hb = -GEOM_MAX <= hi.x && hi.x <= GEOM_MAX && -GEOM_MAX <= hi.y && hi.y
                    <= GEOM_MAX && -GEOM_MAX <= hi.z && hi.z <= GEOM_MAX;
                lb && hb && lo.x < hi.x && lo.y < hi.y && lo.z < hi.z && Self::material_check(m)
            },
        }
    }

    /// Whether one material's parameters lie inside the color limits.
    fn material_check(m: &Material) -> (b: bool)
        ensures
            b == material_wf(*m),
    {
        match m {
            Material::Diffuse(a) => Self::color_check(a),
            Material::Mirror => true,
            Material::Glass => true,
            Material::Phong(c, s, q) => Self::color_check(c) && Self::color_check(s) && *q <= 64,
            Material::Emissive(e) => 0 <= e.x && e.x <= crate::material::EMIT_MAX && 0 <= e.y
                && e.y <= crate::material::EMIT_MAX && 0 <= e.z && e.z
                <= crate::material::EMIT_MAX,
        }
    }

    fn color_check(c: &Vec3) -> (b: bool)
        ensures
            b == color_wf(*c),
    {
        0 <= c.x && c.x <= SCALE && 0 <= c.y && c.y <= SCALE && 0 <= c.z && c.z <= SCALE
    }

    /// Number of objects in the scene.
    pub fn size(&self) -> (n: usize)
        ensures
            n == self.objects.len(),
    {
        self.objects.len()
    }

    /// The globally nearest hit of `r` against every object, or nothing.
    pub fn hit(&self, r: &Ray) -> (res: Option<Hit>)
        requires
            scene_wf(*self),
            ray_wf(*r),
        ensures
            res == nearest_hit(self.objects@, *r, self.objects.len() as int),
            res matches Some(h) ==> hit_wf(h) && h.object < self.objects.len(),
    {
        let mut acc: Option<Hit> = None;
        let mut i: usize = 0;
        while i < self.objects.len()
            invariant
                scene_wf(*self),
                ray_wf(*r),
                i <= self.objects.len(),
                acc == nearest_hit(self.objects@, *r, i as int),
                acc matches Some(h) ==> hit_wf(h) && h.object < i,
            decreases self.objects.len() - i,
        {
            let cur = self.objects[i].intersect(r, EPSILON + 1, T_LIMIT, i);
            acc = match (acc, cur) {
                (None, c) => c,
                (Some(ph), None) => Some(ph),
                (Some(ph), Some(ch)) => if ch.t < ph.t {
                    Some(ch)
                } else {
                    Some(ph)
                },
            };
            i = i + 1;
        }
        acc
    }

    /// Visibility test toward a sampled light point: the nearest hit of the
    /// shadow ray, kept only when it lands on the intended light; any other
    /// object in between occludes it.
    pub fn hit_light(&self, r: &Ray, light: usize) -> (res: Option<Hit>)
        requires
            scene_wf(*self),
            ray_wf(*r),
        ensures
            res == match nearest_hit(self.objects@, *r, self.objects.len() as int) {
                Some(h) => if h.object == light {
                    Some(h)
                } else {
                    None
                },
                None => None,
            },
            res matches Some(h) ==> hit_wf(h) && h.object == light,
    {
        match self.hit(r) {
            Some(h) => if h.object == light {
                Some(h)
            } else {
                None
            },
            None => None,
        }
    }

    /// The light picked by a uniform draw: index `rand mod number-of-lights`
    /// into the light list.
    pub fn uniform_random_light(&self, rand: i64) -> (l: usize)
        requires
            scene_wf(*self),
            rand >= 0,
        ensures
            l == self.lights[rand as int % self.lights.len() as int],
            light_ok(self.objects@, l as int),
    {
        let idx64: u64 = (rand as u64) % (self.lights.len() as u64);
        let idx: usize = idx64 as usize;
        self.lights[idx]
    }
}

} // verus!
