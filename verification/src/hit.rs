//! Intersection records, ordered by the ray parameter at which they occur.

use vstd::prelude::*;

verus! {

use crate::COORD_MAX;
use crate::EPSILON;
use crate::SCALE;
use crate::T_LIMIT;
use crate::vec3::Vec3;
use crate::vec3::bounded;

/// One intersection: ray parameter, index of the object hit in the scene's
/// object list, hit point and outward surface normal at that point.
#[derive(Clone, Copy, Debug)]
pub struct Hit {
    pub t: i64,
    pub object: usize,
    pub p: Vec3,
    pub n: Vec3,
}

/// The parameter is past the self-intersection guard and inside the search
/// range, the point is inside the world box, the normal has unit length.
pub open spec fn hit_wf(h: Hit) -> bool {
    &&& EPSILON < h.t <= T_LIMIT
    &&& bounded(h.p, COORD_MAX as int)
    &&& bounded(h.n, SCALE as int)
}

impl Hit {
    pub fn new(t: i64, object: usize, p: Vec3, n: Vec3) -> (h: Hit)
        ensures
            h.t == t,
            h.object == object,
            h.p == p,
            h.n == n,
    {
        Hit { t, object, p, n }
    }
}

impl PartialEq for Hit {
    /// Hits compare by the ray parameter alone.
    fn eq(&self, other: &Hit) -> (r: bool) {
        self.t == other.t
    }
}

impl vstd::std_specs::cmp::PartialEqSpecImpl for Hit {
    open spec fn obeys_eq_spec() -> bool {
        true
    }

    open spec fn eq_spec(&self, other: &Hit) -> bool {
        self.t == other.t
    }
}

impl PartialOrd for Hit {
    /// The nearer hit is the smaller one.
    fn partial_cmp(&self, other: &Hit) -> (r: Option<core::cmp::Ordering>) {
        if self.t < other.t {
            Some(core::cmp::Ordering::Less)
        } else if self.t == other.t {
            Some(core::cmp::Ordering::Equal)
        } else {
            Some(core::cmp::Ordering::Greater)
        }
    }
}

impl vstd::std_specs::cmp::PartialOrdSpecImpl for Hit {
    open spec fn obeys_partial_cmp_spec() -> bool {
        true
    }

    open spec fn partial_cmp_spec(&self, other: &Hit) -> Option<core::cmp::Ordering> {
        if self.t < other.t {
            Some(core::cmp::Ordering::Less)
        } else if self.t == other.t {
            Some(core::cmp::Ordering::Equal)
        } else {
            Some(core::cmp::Ordering::Greater)
        }
    }
}

} // verus!
