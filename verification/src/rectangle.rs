//! The rectangle: the part of an oriented plane within two half-extents of its
//! origin.

use vstd::prelude::*;
use crate::oriented::{Frame, OrientedPlaneSurface, Projection};
use crate::vector::{Point2, Point3, Vector3};

verus! {

/// A frame and two half-extents: the model of `RectangleBound`.
pub struct Rectangle {
    /// The frame of the plane that the rectangle lies in.
    pub frame: Frame,
    /// Half the side along the first local axis, a raw value.
    pub half_x: int,
    /// Half the side along the second local axis, a raw value.
    pub half_y: int,
}

impl Rectangle {
    /// Whether both half-extents are positive.
    pub open spec fn wf(self) -> bool {
        0 < self.half_x && 0 < self.half_y
    }

    /// Whether `p` lies in the rectangle, sides and corners included: it is on
    /// the plane, its local coordinates are defined, and each is within the
    /// half-extent of its axis.
    pub open spec fn contains(self, p: Point3) -> bool {
        &&& self.frame.on_plane(p)
        &&& !self.frame.undefined_at(p)
        &&& -self.half_x <= self.frame.local_x(p) <= self.half_x
        &&& -self.half_y <= self.frame.local_y(p) <= self.half_y
    }
}

/// No point off the plane is in the rectangle, whatever the half-extents.
pub proof fn lemma_off_plane_is_outside(r: Rectangle, p: Point3)
    requires
        !r.frame.on_plane(p),
    ensures
        !r.contains(p),
{
}

/// The sides of the rectangle belong to it: a point of the plane whose local
/// coordinates are a half-extent on one axis and zero on the other is inside.
pub proof fn lemma_boundary_is_inside(r: Rectangle, p: Point3)
    requires
        r.wf(),
        r.frame.on_plane(p),
        !r.frame.undefined_at(p),
        r.frame.local(p) == (Point2 { x: r.half_x, y: 0 }) || r.frame.local(p) == (Point2 {
            x: 0,
            y: r.half_y,
        }),
    ensures
        r.contains(p),
{
}

/// A rectangle in an oriented plane, centred at the origin of the plane.
#[derive(Clone, Copy, Debug, PartialEq, Eq, Structural)]
pub struct RectangleBound {
    p: OrientedPlaneSurface,
    h_x: i64,
    h_y: i64,
}

impl View for RectangleBound {
    type V = Rectangle;

    closed spec fn view(&self) -> Rectangle {
        Rectangle { frame: self.p@, half_x: self.h_x as int, half_y: self.h_y as int }
    }
}

impl RectangleBound {
    /// The invariant of the type: both half-extents are positive.
    #[verifier::type_invariant]
    pub open spec fn wf(self) -> bool {
        self@.wf()
    }

    /// Makes the rectangle in the plane `p` that reaches `h_x` from the origin
    /// along the first local axis and `h_y` along the second, either way.
    pub fn new(p: OrientedPlaneSurface, h_x: i64, h_y: i64) -> (res: Self)
        requires
            0 < h_x,
            0 < h_y,
        ensures
            res@ == (Rectangle { frame: p@, half_x: h_x as int, half_y: h_y as int }),
    {
        RectangleBound { p, h_x, h_y }
    }

    /// The plane that the rectangle lies in.
    pub fn plane(&self) -> (res: OrientedPlaneSurface)
        ensures
            res@ == self@.frame,
    {
        self.p
    }

    /// Half the side along the first local axis, a raw value.
    pub fn half_x(&self) -> (res: i64)
        ensures
            res == self@.half_x,
            0 < res,
    {
        proof {
            use_type_invariant(self);
        }
        self.h_x
    }

    /// Half the side along the second local axis, a raw value.
    pub fn half_y(&self) -> (res: i64)
        ensures
            res == self@.half_y,
            0 < res,
    {
        proof {
            use_type_invariant(self);
        }
        self.h_y
    }

    /// Tests whether `v` lies in the rectangle.
    pub fn point_on_rectangle(&self, v: Vector3) -> (res: bool)
        ensures
            res == self@.contains(v@),
    {
        if self.p.point_on_plane(v) {
            match self.p.three_d_to_two_d(v) {
                Projection::Local(result) => {
                    let v_x: i128 = result.x as i128;
                    let v_y: i128 = result.y as i128;
                    let h_x: i128 = self.h_x as i128;
                    let h_y: i128 = self.h_y as i128;
                    (v_x <= h_x && v_x >= -h_x) && (v_y <= h_y && v_y >= -h_y)
                },
                _ => false,
            }
        } else {
            false
        }
    }
}

} // verus!
