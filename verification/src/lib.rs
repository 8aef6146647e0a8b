//! An offline path tracer over fixed-point arithmetic.
//!
//! Every quantity is an integer multiple of `1 / SCALE`: points, directions,
//! colors and ray parameters alike.  The scene is a closed set of primitive
//! shapes with closed material kinds; integrators walk rays through it and
//! return a radiance value per primary ray.  All randomness is threaded in
//! explicitly, so every result is a function of its arguments alone.

pub mod math;
pub mod vec3;
pub mod ray;
pub mod hit;
pub mod object;
pub mod scene;
pub mod onb;
pub mod rng;
pub mod pdfs;
pub mod illumination;
pub mod bxdfs;
pub mod material;
pub mod integrator;
pub mod integrators;
pub mod renderer;

use vstd::prelude::*;

verus! {

/// Fixed-point scale: the real number 1.0 is stored as `SCALE`.
pub const SCALE: i64 = 4096;

/// Ray parameters at or below this value are rejected, so that a scattered
/// ray cannot immediately re-hit the surface it left (shadow acne).
pub const EPSILON: i64 = 4;

/// Largest ray parameter an intersection search considers.
pub const T_LIMIT: i64 = 2097152;

/// Bound on the coordinates of scene geometry (centers, plane offsets).
pub const GEOM_MAX: i64 = 4194304;

/// Bound on the coordinates of any hit point the tracer keeps; intersections
/// farther out are treated as misses, so ray origins stay inside this box.
pub const COORD_MAX: i64 = 6291456;

/// Bounces beyond this depth contribute zero radiance.
pub const MAX_DEPTH: usize = 10;

/// Relative refractive index of glass, as the ratio `ETA_NUM / ETA_DEN`.
pub const ETA_NUM: i64 = 3;
/// See `ETA_NUM`.
pub const ETA_DEN: i64 = 2;

/// The circle constant in fixed point: round(pi * SCALE).
pub const PI_FP: i64 = 12868;

/// Russian-roulette termination threshold: a draw from `[0, SCALE)` below
/// this value ends the path.
pub const RR_STOP: i64 = 819;

} // verus!
