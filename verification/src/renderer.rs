//! The verified core of the per-pixel driver: folding one pixel's samples
//! into its final color.  The parallel fan-out around it owns no logic.

use vstd::prelude::*;

verus! {

use crate::math::div_trunc;
use crate::vec3::Vec3;

/// Componentwise sums of the first `upto` samples.
pub open spec fn sum_x(s: Seq<Vec3>, upto: int) -> int
    decreases upto,
{
    if upto <= 0 {
        0
    } else {
        sum_x(s, upto - 1) + s[upto - 1].x
    }
}

/// See `sum_x`.
pub open spec fn sum_y(s: Seq<Vec3>, upto: int) -> int
    decreases upto,
{
    if upto <= 0 {
        0
    } else {
        sum_y(s, upto - 1) + s[upto - 1].y
    }
}

/// See `sum_x`.
pub open spec fn sum_z(s: Seq<Vec3>, upto: int) -> int
    decreases upto,
{
    if upto <= 0 {
        0
    } else {
        sum_z(s, upto - 1) + s[upto - 1].z
    }
}

/// The mean of one pixel's sample colors: the componentwise sum divided by
/// the sample count, truncating exactly as the machine division does.
pub fn average_color(samples: &Vec<Vec3>) -> (c: Vec3)
    requires
        samples.len() > 0,
        samples.len() <= 0x4000,
        forall|i: int|
            0 <= i < samples.len() ==> {
                &&& 0 <= (#[trigger] samples[i]).x <= 0x1_0000_0000_0000
                &&& 0 <= samples[i].y <= 0x1_0000_0000_0000
                &&& 0 <= samples[i].z <= 0x1_0000_0000_0000
            },
    ensures
        c.x as int == div_trunc(sum_x(samples@, samples.len() as int), samples.len() as int),
        c.y as int == div_trunc(sum_y(samples@, samples.len() as int), samples.len() as int),
        c.z as int == div_trunc(sum_z(samples@, samples.len() as int), samples.len() as int),
        c.x >= 0 && c.y >= 0 && c.z >= 0,
{
    let mut sx: i64 = 0;
    let mut sy: i64 = 0;
    let mut sz: i64 = 0;
    let mut i: usize = 0;
    while i < samples.len()
        invariant
            i <= samples.len(),
            samples.len() <= 0x4000,
            forall|k: int|
                0 <= k < samples.len() ==> {
                    &&& 0 <= (#[trigger] samples[k]).x <= 0x1_0000_0000_0000
                    &&& 0 <= samples[k].y <= 0x1_0000_0000_0000
                    &&& 0 <= samples[k].z <= 0x1_0000_0000_0000
                },
            sx as int == sum_x(samples@, i as int),
            sy as int == sum_y(samples@, i as int),
            sz as int == sum_z(samples@, i as int),
            0 <= sx <= (i as int) * 0x1_0000_0000_0000,
            0 <= sy <= (i as int) * 0x1_0000_0000_0000,
            0 <= sz <= (i as int) * 0x1_0000_0000_0000,
        decreases samples.len() - i,
    {
        let s = samples[i];
        sx = sx + s.x;
        sy = sy + s.y;
        sz = sz + s.z;
        i = i + 1;
    }
    let n: i64 = samples.len() as i64;
    Vec3 {
        x: crate::math::div_trunc_i64(sx, n),
        y: crate::math::div_trunc_i64(sy, n),
        z: crate::math::div_trunc_i64(sz, n),
    }
}

} // verus!
