//! Bounding volumes: the axis-aligned box and the collider that pairs it
//! with the radius of a bounding sphere.

use vstd::prelude::*;
use crate::encode::{Decode, Encode};
use crate::error::Error;
use crate::math::{Point3, INFINITY, NEG_INFINITY, ZERO};

verus! {

/// An axis-aligned bounding box, given by its lower and its upper corner.
#[derive(Debug, Clone, Copy, PartialEq, Eq, Structural)]
pub struct Aabb {
    pub lower: Point3,
    pub upper: Point3,
}

/// The bounding volumes of one frame: a box, and the radius of a sphere
/// around the model's center.
#[derive(Debug, Clone, Copy, PartialEq, Eq, Structural)]
pub struct Collider {
    pub aabb: Aabb,
    pub radius: u32,
}

impl DeepView for Aabb {
    type V = Aabb;

    open spec fn deep_view(&self) -> Aabb {
        *self
    }
}

impl Aabb {
    /// The box of no extent at the origin.
    pub open spec fn spec_zero() -> Aabb {
        Aabb {
            lower: Point3 { x: ZERO, y: ZERO, z: ZERO },
            upper: Point3 { x: ZERO, y: ZERO, z: ZERO },
        }
    }

    /// The box that no point has entered yet: its lower corner lies at
    /// positive infinity and its upper corner at negative infinity, so that
    /// the first point that is taken in becomes both corners.
    pub open spec fn spec_unbounded() -> Aabb {
        Aabb {
            lower: Point3 { x: INFINITY, y: INFINITY, z: INFINITY },
            upper: Point3 { x: NEG_INFINITY, y: NEG_INFINITY, z: NEG_INFINITY },
        }
    }

    /// The box of no extent at the origin.
    #[verifier::when_used_as_spec(spec_zero)]
    pub fn zero() -> (b: Aabb)
        ensures
            b == Aabb::spec_zero(),
    {
        Aabb {
            lower: Point3 { x: ZERO, y: ZERO, z: ZERO },
            upper: Point3 { x: ZERO, y: ZERO, z: ZERO },
        }
    }

    /// The box that no point has entered yet.
    #[verifier::when_used_as_spec(spec_unbounded)]
    pub fn unbounded() -> (b: Aabb)
        ensures
            b == Aabb::spec_unbounded(),
    {
        Aabb {
            lower: Point3 { x: INFINITY, y: INFINITY, z: INFINITY },
            upper: Point3 { x: NEG_INFINITY, y: NEG_INFINITY, z: NEG_INFINITY },
        }
    }

    /// Whether no point has entered the box. An infinity has a single bit
    /// pattern and equals no other number, so comparing the patterns
    /// compares the numbers.
    pub fn is_unbounded(&self) -> (b: bool)
        ensures
            b == (*self == Aabb::spec_unbounded()),
    {
        self.lower.x == INFINITY && self.lower.y == INFINITY && self.lower.z == INFINITY
            && self.upper.x == NEG_INFINITY && self.upper.y == NEG_INFINITY && self.upper.z
            == NEG_INFINITY
    }
}

impl Default for Aabb {
    fn default() -> (b: Aabb)
        ensures
            b == Aabb::spec_zero(),
    {
        Aabb::zero()
    }
}

impl Collider {
    /// What an accumulation over a point cloud amounts to: the box it
    /// arrived at and the radius it measured. A box that no point ever
    /// entered is replaced by the box of no extent at the origin.
    pub open spec fn spec_from_bounds(aabb: Aabb, radius: u32) -> Collider {
        Collider {
            aabb: if aabb == Aabb::spec_unbounded() {
                Aabb::spec_zero()
            } else {
                aabb
            },
            radius,
        }
    }

    /// The collider for the box and the radius that an accumulation over a
    /// point cloud arrived at.
    #[verifier::when_used_as_spec(spec_from_bounds)]
    pub fn from_bounds(aabb: Aabb, radius: u32) -> (c: Collider)
        ensures
            c == Collider::spec_from_bounds(aabb, radius),
    {
        Collider {
            aabb: if aabb.is_unbounded() {
                Aabb::zero()
            } else {
                aabb
            },
            radius,
        }
    }
}

impl Default for Collider {
    fn default() -> (c: Collider)
        ensures
            c == (Collider { aabb: Aabb::spec_zero(), radius: ZERO }),
    {
        Collider { aabb: Aabb::zero(), radius: ZERO }
    }
}

/// The lower corner, then the upper corner.
impl Decode for Aabb {
    open spec fn decoded(data: Seq<u8>, pos: int) -> Result<(Aabb, int), Error> {
        match <(Point3, Point3)>::decoded(data, pos) {
            Err(e) => Err(e),
            Ok((c, end)) => Ok((Aabb { lower: c.0, upper: c.1 }, end)),
        }
    }

    proof fn lemma_decoded_bounds(data: Seq<u8>, pos: int) {
        <(Point3, Point3)>::lemma_decoded_bounds(data, pos);
    }

    fn read(data: &[u8], pos: usize) -> (r: Result<(Aabb, usize), Error>) {
        let ((lower, upper), end) = <(Point3, Point3)>::read(data, pos)?;
        Ok((Aabb { lower, upper }, end))
    }
}

impl Encode for Aabb {
    open spec fn encodable(v: Aabb) -> bool {
        true
    }

    open spec fn encoded(v: Aabb) -> Seq<u8> {
        <(Point3, Point3)>::encoded((v.lower, v.upper))
    }

    open spec fn canonical(v: Aabb) -> bool {
        true
    }

    proof fn lemma_round_trip(v: Aabb, data: Seq<u8>, pos: int) {
        <(Point3, Point3)>::lemma_round_trip((v.lower, v.upper), data, pos);
    }

    fn write(&self, out: &mut Vec<u8>) -> (r: Result<(), Error>) {
        (self.lower, self.upper).write(out)
    }
}

} // verus!
