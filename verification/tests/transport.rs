use raytracer::MAX_DEPTH;
use raytracer::RR_STOP;
use raytracer::SCALE;
use raytracer::integrator::Integrator;
use raytracer::integrators::DirectLightingIntegrator;
use raytracer::integrators::Integrator as IntegratorStrategy;
use raytracer::material::Material;
use raytracer::object::Object;
use raytracer::pdfs::Pdf;
use raytracer::ray::Ray;
use raytracer::rng::Rng;
use raytracer::scene::Scene;
use raytracer::vec3::Vec3;

fn v(x: i64, y: i64, z: i64) -> Vec3 {
    Vec3 { x, y, z }
}

fn one_sphere_scene() -> Scene {
    let sphere = Object::Sphere(
        v(0, 0, -5 * SCALE),
        SCALE,
        Material::Diffuse(v(SCALE, SCALE, SCALE)),
    );
    let light = Object::Sphere(
        v(0, 10 * SCALE, -5 * SCALE),
        SCALE,
        Material::Emissive(v(4 * SCALE, 4 * SCALE, 4 * SCALE)),
    );
    Scene::new(vec![sphere, light], vec![1], v(409, 409, 409)).unwrap()
}

#[test]
fn escaping_ray_returns_the_background_exactly() {
    let s = one_sphere_scene();
    let r = Ray { origin: v(0, 0, 0), dir: v(0, 0, SCALE), depth: 0 };
    assert_eq!(r.color(&s), v(0, SCALE, 0));
    let mut rng = Rng::new(1);
    assert_eq!(Integrator::PathTrace.integrate(&s, &r, &mut rng), v(0, SCALE, 0));
    let mut rng2 = Rng::new(1);
    assert_eq!(Integrator::DirectLight.integrate(&s, &r, &mut rng2), v(0, SCALE, 0));
    let mut rng3 = Rng::new(1);
    assert_eq!(Integrator::BDPathTrace.integrate(&s, &r, &mut rng3), v(0, SCALE, 0));
}

#[test]
fn ray_past_the_depth_cap_returns_zero() {
    let s = one_sphere_scene();
    let r = Ray { origin: v(0, 0, 0), dir: v(0, 0, -SCALE), depth: MAX_DEPTH + 1 };
    assert_eq!(r.color(&s), v(0, 0, 0));
    let mut rng = Rng::new(1);
    assert_eq!(Integrator::PathTrace.integrate(&s, &r, &mut rng), v(0, 0, 0));
    let dli = DirectLightingIntegrator::new(one_sphere_scene());
    let r2 = Ray { origin: v(0, 0, 0), dir: v(0, 0, -SCALE), depth: 0 };
    let mut rng2 = Rng::new(1);
    assert_eq!(dli.integrate(&r2, MAX_DEPTH + 1, &mut rng2), v(0, 0, 0));
}

#[test]
fn emissive_surface_returns_its_radiance() {
    let light = Object::Sphere(
        v(0, 0, -5 * SCALE),
        SCALE,
        Material::Emissive(v(100, 200, 300)),
    );
    let s = Scene::new(vec![light], vec![0], v(0, 0, 0)).unwrap();
    let r = Ray { origin: v(0, 0, 0), dir: v(0, 0, -SCALE), depth: 0 };
    assert_eq!(r.color(&s), v(100, 200, 300));
}

#[test]
fn renders_with_the_same_seed_are_bit_identical() {
    let s = one_sphere_scene();
    let r = Ray { origin: v(0, 0, 0), dir: v(0, 0, -SCALE), depth: 0 };
    let mut a = Rng::new(123456789);
    let mut b = Rng::new(123456789);
    for _ in 0..32 {
        let ca = Integrator::PathTrace.integrate(&s, &r, &mut a);
        let cb = Integrator::PathTrace.integrate(&s, &r, &mut b);
        assert_eq!(ca, cb);
    }
    assert_eq!(a.state, b.state);
    // the deterministic shading path needs no stream at all
    assert_eq!(r.color(&s), r.color(&s));
}

#[test]
fn cosine_falloff_makes_the_facing_point_brighter() {
    let sphere = Object::Sphere(
        v(0, 0, -5 * SCALE),
        SCALE,
        Material::Diffuse(v(SCALE, SCALE, SCALE)),
    );
    let light = Object::Sphere(
        v(0, 10 * SCALE, -5 * SCALE),
        SCALE,
        Material::Emissive(v(4 * SCALE, 4 * SCALE, 4 * SCALE)),
    );
    let s = Scene::new(vec![sphere, light], vec![1], v(100, 100, 100)).unwrap();
    // straight down onto the pole that faces the light
    let facing = Ray { origin: v(0, 3 * SCALE, -5 * SCALE), dir: v(0, -SCALE, 0), depth: 0 };
    // onto the equator, where the light arrives at a right angle
    let grazing = Ray { origin: v(3 * SCALE, 0, -5 * SCALE), dir: v(-SCALE, 0, 0), depth: 0 };
    let cf = facing.color(&s);
    let cg = grazing.color(&s);
    let bf = cf.x + cf.y + cf.z;
    let bg = cg.x + cg.y + cg.z;
    assert!(bf > bg, "facing {} should be brighter than grazing {}", bf, bg);
}

#[test]
fn cosine_density_integrates_to_one_over_the_hemisphere() {
    let n = v(0, 0, SCALE);
    let p = Pdf::cosine(n);
    let steps_t = 64;
    let steps_p = 128;
    let mut total = 0.0f64;
    for i in 0..steps_t {
        let theta = (i as f64 + 0.5) * std::f64::consts::FRAC_PI_2 / steps_t as f64;
        for j in 0..steps_p {
            let phi = (j as f64 + 0.5) * 2.0 * std::f64::consts::PI / steps_p as f64;
            let dir = v(
                (theta.sin() * phi.cos() * SCALE as f64) as i64,
                (theta.sin() * phi.sin() * SCALE as f64) as i64,
                (theta.cos() * SCALE as f64) as i64,
            );
            let dens = p.pdf_val(dir) as f64 / SCALE as f64;
            let dw = theta.sin() * (std::f64::consts::FRAC_PI_2 / steps_t as f64)
                * (2.0 * std::f64::consts::PI / steps_p as f64);
            total += dens * dw;
        }
    }
    assert!((total - 1.0).abs() < 0.05, "integral was {}", total);
}

#[test]
fn light_sampling_density_is_zero_off_the_light() {
    let light = Object::Sphere(
        v(0, 0, -5 * SCALE),
        SCALE,
        Material::Emissive(v(SCALE, SCALE, SCALE)),
    );
    let p = Pdf::object_dir(light, v(0, 0, 0));
    // away from the light entirely
    assert_eq!(p.pdf_val(v(0, 0, SCALE)), 0);
    // straight at it: a positive density
    assert!(p.pdf_val(v(0, 0, -SCALE)) > 0);
}

#[test]
fn roulette_average_matches_the_plain_value() {
    // estimator: 0 when the draw stops the path, else the value rescaled by
    // the reciprocal survival probability; its average converges to the value
    let value: i64 = 1000;
    let rescaled: i64 = value * SCALE / (SCALE - RR_STOP);
    let mut rng = Rng::new(777);
    let n = 200000;
    let mut sum: i64 = 0;
    for _ in 0..n {
        let d = rng.rand_unit();
        if d >= RR_STOP {
            sum += rescaled;
        }
    }
    let mean = sum as f64 / n as f64;
    let rel = (mean - value as f64).abs() / value as f64;
    assert!(rel < 0.02, "mean {} strays from {}", mean, value);
}

#[test]
fn random_stream_is_reproducible_and_in_range() {
    let mut a = Rng::new(42);
    let mut b = Rng::new(42);
    for _ in 0..100 {
        let x = a.rand_unit();
        let y = b.rand_unit();
        assert_eq!(x, y);
        assert!(0 <= x && x < SCALE);
        let (u, w) = a.rand_square();
        let _ = b.rand_square();
        assert!(0 <= u && u < SCALE && 0 <= w && w < SCALE);
    }
}

#[test]
fn direct_lighting_integrator_follows_mirrors() {
    // a mirror tilted is hard to aim; use a flat mirror plane so the ray
    // bounces back out to the background
    let mirror = Object::Plane(v(0, 0, SCALE), -8 * SCALE, Material::Mirror);
    let light = Object::Sphere(
        v(0, 100 * SCALE, 0),
        SCALE,
        Material::Emissive(v(SCALE, SCALE, SCALE)),
    );
    let s = Scene::new(vec![mirror, light], vec![1], v(0, 0, 0)).unwrap();
    let dli = DirectLightingIntegrator::new(s);
    let r = Ray { origin: v(0, 0, 0), dir: v(0, 0, -SCALE), depth: 0 };
    let mut rng = Rng::new(5);
    let c = dli.integrate(&r, 0, &mut rng);
    // the reflected ray escapes upward past the light plane: background
    assert_eq!(c, v(0, SCALE, 0));
}
