use raytracer::SCALE;
use raytracer::hit::Hit;
use raytracer::illumination::pow_frac;
use raytracer::illumination::reflect_dir;
use raytracer::illumination::refract_dir;
use raytracer::material::Material;
use raytracer::math::div_trunc_i64;
use raytracer::math::isqrt_u128;
use raytracer::object::Object;
use raytracer::ray::Ray;
use raytracer::scene::Scene;
use raytracer::scene::SceneError;
use raytracer::vec3::Vec3;

fn v(x: i64, y: i64, z: i64) -> Vec3 {
    Vec3 { x, y, z }
}

#[test]
fn division_truncates_toward_zero() {
    assert_eq!(div_trunc_i64(7, 2), 3);
    assert_eq!(div_trunc_i64(-7, 2), -3);
    assert_eq!(div_trunc_i64(7, -2), -3);
    assert_eq!(div_trunc_i64(-7, -2), 3);
}

#[test]
fn integer_square_root_rounds_down() {
    assert_eq!(isqrt_u128(0), 0);
    assert_eq!(isqrt_u128(1), 1);
    assert_eq!(isqrt_u128(35), 5);
    assert_eq!(isqrt_u128(36), 6);
    assert_eq!(isqrt_u128(1 << 72), 1 << 36);
}

#[test]
fn fractional_power_is_exact_on_powers_of_two() {
    assert_eq!(pow_frac(2048, 0), SCALE);
    assert_eq!(pow_frac(2048, 1), 2048);
    assert_eq!(pow_frac(2048, 2), 1024);
    assert_eq!(pow_frac(0, 3), 0);
    assert_eq!(pow_frac(SCALE, 7), SCALE);
}

#[test]
fn mirror_reflection_at_normal_incidence_reverses_the_ray() {
    let d = v(0, 0, -SCALE);
    let n = v(0, 0, SCALE);
    assert_eq!(reflect_dir(d, n), Some(v(0, 0, SCALE)));
}

#[test]
fn mirror_reflection_flips_only_the_normal_component() {
    // d = (1, 0, -1) / sqrt(2) against the z axis; the z component flips
    let d = v(2896, 0, -2896);
    let n = v(0, 0, SCALE);
    let r = reflect_dir(d, n).unwrap();
    assert!(r.z > 0);
    assert_eq!(r.x, d.x);
    assert_eq!(r.z, -d.z);
}

#[test]
fn glass_transmits_straight_through_at_normal_incidence() {
    let n = v(0, 0, SCALE);
    let d = v(0, 0, -SCALE);
    assert_eq!(refract_dir(d, n), Some(d));
}

#[test]
fn glass_reflects_beyond_the_critical_angle() {
    // leaving the medium almost parallel to the surface: total internal
    // reflection must hand back exactly the mirror direction
    let n = v(0, 0, SCALE);
    let d = v(4000, 0, 900);
    let refracted = refract_dir(d, n);
    let mirrored = reflect_dir(d, n);
    assert!(refracted.is_some());
    assert_eq!(refracted, mirrored);
}

#[test]
fn sphere_intersection_finds_the_near_root() {
    let sphere = Object::Sphere(v(0, 0, -3 * SCALE), SCALE, Material::Mirror);
    let r = Ray { origin: v(0, 0, 0), dir: v(0, 0, -SCALE), depth: 0 };
    let h = sphere.intersect(&r, raytracer::EPSILON + 1, raytracer::T_LIMIT, 7).unwrap();
    assert_eq!(h.t, 2 * SCALE);
    assert_eq!(h.object, 7);
    assert_eq!(h.p, v(0, 0, -2 * SCALE));
    assert_eq!(h.n, v(0, 0, SCALE));
}

#[test]
fn sphere_intersection_misses_sideways() {
    let sphere = Object::Sphere(v(0, 0, -3 * SCALE), SCALE, Material::Mirror);
    let r = Ray { origin: v(0, 0, 0), dir: v(0, 0, SCALE), depth: 0 };
    assert!(sphere.intersect(&r, raytracer::EPSILON + 1, raytracer::T_LIMIT, 0).is_none());
}

#[test]
fn plane_intersection_is_exact_and_faces_the_ray() {
    let plane = Object::Plane(v(0, 0, SCALE), -2 * SCALE, Material::Mirror);
    let r = Ray { origin: v(0, 0, 0), dir: v(0, 0, -SCALE), depth: 0 };
    let h = plane.intersect(&r, raytracer::EPSILON + 1, raytracer::T_LIMIT, 0).unwrap();
    assert_eq!(h.t, 2 * SCALE);
    assert_eq!(h.p, v(0, 0, -2 * SCALE));
    // the normal points against the incoming ray
    assert_eq!(h.n, v(0, 0, SCALE));
}

#[test]
fn scene_hit_returns_the_globally_nearest_object() {
    let near = Object::Sphere(v(0, 0, -3 * SCALE), SCALE, Material::Mirror);
    let far = Object::Sphere(v(0, 0, -10 * SCALE), SCALE, Material::Mirror);
    let light = Object::Sphere(v(0, 100 * SCALE, 0), SCALE, Material::Emissive(v(SCALE, SCALE, SCALE)));
    let s = Scene::new(vec![far, near, light], vec![2], v(0, 0, 0)).unwrap();
    let r = Ray { origin: v(0, 0, 0), dir: v(0, 0, -SCALE), depth: 0 };
    let h = s.hit(&r).unwrap();
    assert_eq!(h.object, 1);
    assert_eq!(h.t, 2 * SCALE);
}

#[test]
fn shadow_test_detects_occlusion_by_any_object() {
    let blocker = Object::Sphere(v(0, 0, -3 * SCALE), SCALE, Material::Mirror);
    let light = Object::Sphere(v(0, 0, -10 * SCALE), SCALE, Material::Emissive(v(SCALE, SCALE, SCALE)));
    let s = Scene::new(vec![blocker, light], vec![1], v(0, 0, 0)).unwrap();
    let r = Ray { origin: v(0, 0, 0), dir: v(0, 0, -SCALE), depth: 0 };
    // the blocker sits between the origin and the light
    assert!(s.hit_light(&r, 1).is_none());
    // with the target being the blocker itself the ray reaches it
    assert!(s.hit_light(&r, 0).is_some());
}

#[test]
fn scene_without_lights_is_rejected() {
    let sphere = Object::Sphere(v(0, 0, -3 * SCALE), SCALE, Material::Mirror);
    assert_eq!(Scene::new(vec![sphere], vec![], v(0, 0, 0)).unwrap_err(), SceneError::NoLights);
}

#[test]
fn scene_with_bad_light_reference_is_rejected() {
    let sphere = Object::Sphere(v(0, 0, -3 * SCALE), SCALE, Material::Mirror);
    // out of range
    assert_eq!(
        Scene::new(vec![sphere], vec![3], v(0, 0, 0)).unwrap_err(),
        SceneError::NoSuchLight
    );
    // in range but not emissive
    let sphere2 = Object::Sphere(v(0, 0, -3 * SCALE), SCALE, Material::Mirror);
    assert_eq!(
        Scene::new(vec![sphere2], vec![0], v(0, 0, 0)).unwrap_err(),
        SceneError::NoSuchLight
    );
}

#[test]
fn scene_with_degenerate_object_is_rejected() {
    let flat = Object::Sphere(v(0, 0, 0), 0, Material::Mirror);
    assert_eq!(Scene::new(vec![flat], vec![0], v(0, 0, 0)).unwrap_err(), SceneError::BadObject);
}

#[test]
fn rectangle_intersection_respects_the_edge_spans() {
    let rect = Object::Rectangle(
        v(-SCALE, -SCALE, -2 * SCALE),
        v(2 * SCALE, 0, 0),
        v(0, 2 * SCALE, 0),
        Material::Mirror,
    );
    let r = Ray { origin: v(0, 0, 0), dir: v(0, 0, -SCALE), depth: 0 };
    let h = rect.intersect(&r, raytracer::EPSILON + 1, raytracer::T_LIMIT, 3).unwrap();
    assert_eq!(h.t, 2 * SCALE);
    assert_eq!(h.p, v(0, 0, -2 * SCALE));
    assert_eq!(h.n, v(0, 0, SCALE));
    assert_eq!(h.object, 3);
    // on the supporting plane but outside the spans: a miss
    let off = Ray { origin: v(3 * SCALE, 0, 0), dir: v(0, 0, -SCALE), depth: 0 };
    assert!(rect.intersect(&off, raytracer::EPSILON + 1, raytracer::T_LIMIT, 3).is_none());
}

#[test]
fn cuboid_intersection_enters_at_the_near_face() {
    let boxy = Object::Cuboid(
        v(-SCALE, -SCALE, -3 * SCALE),
        v(SCALE, SCALE, -SCALE),
        Material::Mirror,
    );
    let r = Ray { origin: v(0, 0, 0), dir: v(0, 0, -SCALE), depth: 0 };
    let h = boxy.intersect(&r, raytracer::EPSILON + 1, raytracer::T_LIMIT, 0).unwrap();
    assert_eq!(h.t, SCALE);
    assert_eq!(h.p, v(0, 0, -SCALE));
    assert_eq!(h.n, v(0, 0, SCALE));
    // starting inside: the exit face is reported, with its outward normal
    let inside = Ray { origin: v(0, 0, -2 * SCALE), dir: v(0, 0, -SCALE), depth: 0 };
    let h2 = boxy.intersect(&inside, raytracer::EPSILON + 1, raytracer::T_LIMIT, 0).unwrap();
    assert_eq!(h2.t, SCALE);
    assert_eq!(h2.p, v(0, 0, -3 * SCALE));
    assert_eq!(h2.n, v(0, 0, -SCALE));
    // sideways past the box: a miss
    let off = Ray { origin: v(3 * SCALE, 0, 0), dir: v(0, 0, -SCALE), depth: 0 };
    assert!(boxy.intersect(&off, raytracer::EPSILON + 1, raytracer::T_LIMIT, 0).is_none());
}

#[test]
fn rectangle_and_cuboid_validate_in_a_scene() {
    let rect = Object::Rectangle(
        v(-SCALE, -SCALE, -2 * SCALE),
        v(2 * SCALE, 0, 0),
        v(0, 2 * SCALE, 0),
        Material::Diffuse(v(2048, 2048, 2048)),
    );
    let boxy = Object::Cuboid(
        v(-SCALE, -SCALE, -6 * SCALE),
        v(SCALE, SCALE, -4 * SCALE),
        Material::Mirror,
    );
    let light = Object::Sphere(
        v(0, 100 * SCALE, 0),
        SCALE,
        Material::Emissive(v(SCALE, SCALE, SCALE)),
    );
    let s = Scene::new(vec![rect, boxy, light], vec![2], v(0, 0, 0)).unwrap();
    let r = Ray { origin: v(0, 0, 0), dir: v(0, 0, -SCALE), depth: 0 };
    // the rectangle sits in front of the box
    assert_eq!(s.hit(&r).unwrap().object, 0);
    // degenerate rectangle edges are rejected at construction
    let bad = Object::Rectangle(v(0, 0, 0), v(SCALE, 0, 0), v(SCALE, 0, 0), Material::Mirror);
    assert_eq!(Scene::new(vec![bad], vec![0], v(0, 0, 0)).unwrap_err(), SceneError::BadObject);
    // an inverted cuboid is rejected too
    let flat = Object::Cuboid(v(SCALE, 0, 0), v(-SCALE, SCALE, SCALE), Material::Mirror);
    assert_eq!(Scene::new(vec![flat], vec![0], v(0, 0, 0)).unwrap_err(), SceneError::BadObject);
}

#[test]
fn diffuse_scatter_stays_in_the_hemisphere() {
    let h = Hit::new(2 * SCALE, 0, v(0, 0, -2 * SCALE), v(0, 0, SCALE));
    let r = Ray { origin: v(0, 0, 0), dir: v(0, 0, -SCALE), depth: 0 };
    let mut rng = raytracer::rng::Rng::new(9);
    for _ in 0..200 {
        if let Some(nr) = raytracer::bxdfs::diffuse_bsdf(&h, &r, &mut rng) {
            let c = nr.dir.x as i128 * h.n.x as i128 + nr.dir.y as i128 * h.n.y as i128
                + nr.dir.z as i128 * h.n.z as i128;
            assert!(c > 0, "scattered direction dipped below the surface");
            assert_eq!(nr.origin, h.p);
            assert_eq!(nr.depth, 1);
        }
    }
}

#[test]
fn pixel_average_is_the_truncated_mean() {
    let samples = vec![v(0, 0, 0), v(4096, 2048, 10), v(4096, 2048, 11)];
    let c = raytracer::renderer::average_color(&samples);
    assert_eq!(c, v(2730, 1365, 7));
}

#[test]
fn hits_compare_by_ray_parameter() {
    let a = Hit::new(5, 0, v(0, 0, 0), v(0, 0, SCALE));
    let b = Hit::new(9, 1, v(1, 2, 3), v(0, 0, SCALE));
    let c = Hit::new(5, 2, v(4, 5, 6), v(0, 0, SCALE));
    assert!(a < b);
    assert!(b > c);
    assert!(a == c);
}
