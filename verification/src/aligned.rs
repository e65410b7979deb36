//! Frames whose axes run along the axes of space, where local coordinates are
//! plain differences.

use vstd::prelude::*;
use crate::oriented::Frame;
use crate::rectangle::Rectangle;
use crate::scalar::{floor_sqrt, is_floor_sqrt, lemma_floor_sqrt_unique, magnitude, UNIT};
use crate::vector::{lemma_norm_sq_zero, Point2, Point3};

verus! {

/// The frame at `o` whose handles lie one unit of length from `o` along the first,
/// second and third axis of space.
pub open spec fn aligned_frame(o: Point3) -> Frame {
    Frame {
        origin: o,
        hx: Point3 { x: o.x + UNIT, y: o.y, z: o.z },
        hy: Point3 { x: o.x, y: o.y + UNIT, z: o.z },
        hz: Point3 { x: o.x, y: o.y, z: o.z + UNIT },
    }
}

/// The rounded-down square root of a square is the magnitude of its root.
pub proof fn lemma_floor_sqrt_of_square(c: int)
    ensures
        floor_sqrt(c * c) == magnitude(c),
{
    let m = magnitude(c);
    assert(m * m == c * c && c * c < (m + 1) * (m + 1)) by (nonlinear_arith)
        requires
            m == c || m == -c,
            0 <= m,
    ;
    assert(is_floor_sqrt(c * c, m));
    lemma_floor_sqrt_unique(c * c, m);
}

proof fn lemma_scaled_square(u: int, c: int, rest: int)
    by (nonlinear_arith)
    requires
        0 < u,
    ensures
        ((u * c) * (u * c)) / (u * u) == c * c,
        ((c * c + rest) * (u * u) - (u * c) * (u * c)) / (u * u) == rest,
{
}

/// In an aligned frame the plane is the level of the origin: a point is on the
/// plane exactly if its third coordinate is that of the origin.
pub proof fn lemma_aligned_plane_is_level(o: Point3, p: Point3)
    ensures
        aligned_frame(o).on_plane(p) <==> p.z == o.z,
{
    let f = aligned_frame(o);
    let n = f.normal();
    let w = f.origin.minus(p);
    assert(n.x * w.x + n.y * w.y + n.z * w.z == UNIT * (o.z - p.z)) by (nonlinear_arith)
        requires
            n.x == 0,
            n.y == 0,
            n.z == UNIT,
            w.z == o.z - p.z,
    ;
}

/// In an aligned frame the local coordinates of a point at the level of the
/// origin are its first offset from the origin and the magnitude of its second,
/// and they are undefined at the origin only.
pub proof fn lemma_aligned_local_coordinates(o: Point3, p: Point3)
    requires
        p.z == o.z,
    ensures
        aligned_frame(o).undefined_at(p) <==> p == o,
        aligned_frame(o).local(p) == (Point2 { x: p.x - o.x, y: magnitude(p.y - o.y) }),
{
    let f = aligned_frame(o);
    let a = f.x_axis();
    let q = p.minus(o);
    lemma_norm_sq_zero(q);
    let u = UNIT as int;
    assert(a.norm_sq() == u * u && a.dot(q) == u * q.x && q.norm_sq() == q.x * q.x + q.y * q.y)
        by (nonlinear_arith)
        requires
            a.x == u,
            a.y == 0,
            a.z == 0,
            q.z == 0,
            a.norm_sq() == a.x * a.x + a.y * a.y + a.z * a.z,
            a.dot(q) == a.x * q.x + a.y * q.y + a.z * q.z,
            q.norm_sq() == q.x * q.x + q.y * q.y + q.z * q.z,
    ;
    lemma_scaled_square(u, q.x, q.y * q.y);
    lemma_floor_sqrt_of_square(q.x);
    lemma_floor_sqrt_of_square(q.y);
}

/// Containment in a rectangle of an aligned frame: a point is inside exactly if
/// it is at the level of the origin, is not the origin, and each of its first
/// two offsets from the origin is within the half-extent of its axis.
pub proof fn lemma_aligned_rectangle_contains(o: Point3, half_x: int, half_y: int, p: Point3)
    ensures
        (Rectangle { frame: aligned_frame(o), half_x, half_y }).contains(p) <==> {
            &&& p.z == o.z
            &&& p != o
            &&& magnitude(p.x - o.x) <= half_x
            &&& magnitude(p.y - o.y) <= half_y
        },
{
    lemma_aligned_plane_is_level(o, p);
    if p.z == o.z {
        lemma_aligned_local_coordinates(o, p);
    }
}

/// Placing undoes projecting in the aligned frame at the zero of space, for the
/// points at height zero whose second coordinate is not negative.
pub proof fn lemma_embed_inverts_local_in_frame_of_space(p: Point3)
    requires
        p.z == 0,
        p.y >= 0,
    ensures
        ({
            let f = aligned_frame(Point3 { x: 0, y: 0, z: 0 });
            f.embed(f.local(p)) == p
        }),
{
    lemma_aligned_local_coordinates(Point3 { x: 0, y: 0, z: 0 }, p);
}

/// Every point at the level of the origin is on the plane of an aligned frame.
pub proof fn lemma_level_points_are_on_plane(o: Point3, x: int, y: int)
    ensures
        aligned_frame(o).on_plane(Point3 { x, y, z: o.z }),
{
    lemma_aligned_plane_is_level(o, Point3 { x, y, z: o.z });
}

/// No point off the level of the origin is in a rectangle of an aligned frame,
/// whatever its half-extents.
pub proof fn lemma_off_level_points_are_outside(o: Point3, half_x: int, half_y: int, p: Point3)
    requires
        p.z != o.z,
    ensures
        !(Rectangle { frame: aligned_frame(o), half_x, half_y }).contains(p),
{
    lemma_aligned_plane_is_level(o, p);
}

} // verus!
