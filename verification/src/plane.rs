//! The unbounded plane given by a normal vector and an offset.

use vstd::prelude::*;
use crate::scalar::{near_zero, UNIT};
use crate::vector::{Point3, Vector3};

verus! {

/// The equation `n . p + b = 0` of a plane: the model of `PlaneSurface`.
pub struct PlaneEquation {
    /// The normal vector, in raw values.
    pub n: Point3,
    /// The offset, a raw value.
    pub b: int,
}

impl PlaneEquation {
    /// The left side of the equation at `p`, as a product of raw values.
    pub open spec fn value_at(self, p: Point3) -> int {
        p.dot(self.n) + self.b * UNIT
    }

    /// Whether `p` lies on the plane: the left side of the equation at `p` is
    /// below one raw step in magnitude.
    pub open spec fn on_plane(self, p: Point3) -> bool {
        near_zero(self.value_at(p))
    }
}

/// An unbounded plane.
#[derive(Clone, Copy, Debug, PartialEq, Eq, Structural)]
pub struct PlaneSurface {
    n: Vector3,
    b: i64,
}

impl View for PlaneSurface {
    type V = PlaneEquation;

    closed spec fn view(&self) -> PlaneEquation {
        PlaneEquation { n: self.n@, b: self.b as int }
    }
}

impl PlaneSurface {
    /// Makes the plane of the points `p` with `n . p + b = 0`.
    pub fn new(n: Vector3, b: i64) -> (res: Self)
        ensures
            res@ == (PlaneEquation { n: n@, b: b as int }),
    {
        PlaneSurface { n, b }
    }

    /// The normal vector.
    pub fn normal(&self) -> (res: Vector3)
        ensures
            res@ == self@.n,
    {
        self.n
    }

    /// The offset, a raw value.
    pub fn offset(&self) -> (res: i64)
        ensures
            res == self@.b,
    {
        self.b
    }

    /// Tests whether `v` lies on the plane.
    pub fn point_on_plane(&self, v: Vector3) -> (res: bool)
        ensures
            res == self@.on_plane(v@),
    {
        assert(-0x8000_0000_0000_0000 * 1_000_000 <= self.b * UNIT <= 0x8000_0000_0000_0000
            * 1_000_000) by (nonlinear_arith)
            requires
                -0x8000_0000_0000_0000 <= self.b <= 0x8000_0000_0000_0000,
                UNIT == 1_000_000,
        ;
        let val: i128 = v.dot(&self.n) + (self.b as i128) * (UNIT as i128);
        -(UNIT as i128) < val && val < UNIT as i128
    }
}

} // verus!
