//! The oriented plane: a plane with a frame of its own, given by four points.

use vstd::prelude::*;
use crate::scalar::{
    div_by_sqrt,
    floor_sqrt,
    isqrt,
    lemma_floor_sqrt_bound,
    lemma_floor_sqrt_exists,
    lemma_floor_sqrt_unique,
    magnitude,
    near_zero,
    UNIT,
};
use crate::vector::{
    lemma_cauchy_schwarz,
    lemma_norm_sq_zero,
    Displacement,
    Point2,
    Point3,
    Vector2,
    Vector3,
    MAX_DOT,
};

verus! {

/// Four points that define a plane and its frame: the model of
/// `OrientedPlaneSurface`.
pub struct Frame {
    /// The zero of the frame.
    pub origin: Point3,
    /// The point whose displacement from `origin` directs the first local axis.
    pub hx: Point3,
    /// The point whose displacement from `origin` directs the second local axis.
    pub hy: Point3,
    /// The point whose displacement from `origin` directs the normal of the plane.
    pub hz: Point3,
}

impl Frame {
    /// The direction of the normal: `hz - origin`.
    pub open spec fn normal(self) -> Point3 {
        self.hz.minus(self.origin)
    }

    /// The direction of the first local axis: `hx - origin`.
    pub open spec fn x_axis(self) -> Point3 {
        self.hx.minus(self.origin)
    }

    /// Whether `p` lies on the plane: the dot product of the normal direction and
    /// `origin - p` is below one raw step in magnitude.
    pub open spec fn on_plane(self, p: Point3) -> bool {
        near_zero(self.normal().dot(self.origin.minus(p)))
    }

    /// Whether the angle between the first local axis and `p - origin` is
    /// undefined: one of the two has length zero.
    pub open spec fn undefined_at(self, p: Point3) -> bool {
        self.x_axis().norm_sq() == 0 || p.minus(self.origin).norm_sq() == 0
    }

    /// The first local coordinate of `p`: the length of `p - origin` times the
    /// cosine of its angle with the first local axis, which is the dot product of
    /// the two divided by the length of the axis, rounded toward zero.
    pub open spec fn local_x(self, p: Point3) -> int {
        div_by_sqrt(self.x_axis().dot(p.minus(self.origin)), self.x_axis().norm_sq())
    }

    /// The second local coordinate of `p`: the length of `p - origin` times the
    /// sine of its angle with the first local axis, rounded down. The angle is
    /// between zero and a half turn, so this is the distance of `p` from the
    /// first local axis, whichever side of it `p` is on.
    pub open spec fn local_y(self, p: Point3) -> int {
        let a = self.x_axis();
        let q = p.minus(self.origin);
        floor_sqrt((q.norm_sq() * a.norm_sq() - a.dot(q) * a.dot(q)) / a.norm_sq())
    }

    /// The local coordinates of `p`.
    pub open spec fn local(self, p: Point3) -> Point2 {
        Point2 { x: self.local_x(p), y: self.local_y(p) }
    }

    /// The point of space for the local point `q`: the displacement from `origin`
    /// to `(q.x, q.y, 0)`, added to `origin`.
    pub open spec fn embed(self, q: Point2) -> Point3 {
        self.origin.plus((Point3 { x: q.x, y: q.y, z: 0 }).minus(self.origin))
    }
}

/// What the projection of a point of space into the frame of a plane gives.
#[derive(Clone, Copy, Debug, PartialEq, Eq, Structural)]
pub enum Projection {
    /// The point is not on the plane.
    OffPlane,
    /// The point is on the plane, and its angle with the first local axis is
    /// undefined.
    Undefined,
    /// The point is on the plane, at these local coordinates.
    Local(Vector2),
}

impl Projection {
    /// The local coordinates, if the projection has given any.
    pub fn coordinates(&self) -> (res: Option<Vector2>)
        ensures
            res == (match *self {
                Projection::Local(q) => Some(q),
                _ => None,
            }),
    {
        match self {
            Projection::Local(q) => Some(*q),
            _ => None,
        }
    }
}

/// A plane with a frame of its own.
#[derive(Clone, Copy, Debug, PartialEq, Eq, Structural)]
pub struct OrientedPlaneSurface {
    origin: Vector3,
    hx: Vector3,
    hy: Vector3,
    hz: Vector3,
}

impl View for OrientedPlaneSurface {
    type V = Frame;

    closed spec fn view(&self) -> Frame {
        Frame { origin: self.origin@, hx: self.hx@, hy: self.hy@, hz: self.hz@ }
    }
}

impl OrientedPlaneSurface {
    /// Makes the plane through `origin` whose first local axis, second local axis
    /// and normal point from `origin` to `hx`, `hy` and `hz`.
    pub fn new(origin: Vector3, hx: Vector3, hy: Vector3, hz: Vector3) -> (res: Self)
        ensures
            res@ == (Frame { origin: origin@, hx: hx@, hy: hy@, hz: hz@ }),
    {
        OrientedPlaneSurface { origin, hx, hy, hz }
    }

    /// The zero of the frame.
    pub fn origin(&self) -> (res: Vector3)
        ensures
            res@ == self@.origin,
    {
        self.origin
    }

    /// The handle of the first local axis.
    pub fn hx(&self) -> (res: Vector3)
        ensures
            res@ == self@.hx,
    {
        self.hx
    }

    /// The handle of the second local axis.
    pub fn hy(&self) -> (res: Vector3)
        ensures
            res@ == self@.hy,
    {
        self.hy
    }

    /// The handle of the normal.
    pub fn hz(&self) -> (res: Vector3)
        ensures
            res@ == self@.hz,
    {
        self.hz
    }

    /// Tests whether `v` lies on the plane.
    pub fn point_on_plane(&self, v: Vector3) -> (res: bool)
        ensures
            res == self@.on_plane(v@),
    {
        let o_prime_hz: Displacement = self.hz.minus(&self.origin);
        let o_prime_v: Displacement = self.origin.minus(&v);
        let val: i128 = o_prime_hz.dot(&o_prime_v);
        -(UNIT as i128) < val && val < UNIT as i128
    }

    /// Projects `v` into the frame of the plane.
    pub fn three_d_to_two_d(&self, v: Vector3) -> (res: Projection)
        ensures
            res is OffPlane <==> !self@.on_plane(v@),
            res is Undefined <==> self@.on_plane(v@) && self@.undefined_at(v@),
            res matches Projection::Local(q) ==> q@ == self@.local(v@),
    {
        if !self.point_on_plane(v) {
            return Projection::OffPlane;
        }
        let o_prime_v: Displacement = v.minus(&self.origin);
        let rr: i128 = o_prime_v.norm_sq();
        let o_prime_hx: Displacement = self.hx.minus(&self.origin);
        let ll: i128 = o_prime_hx.norm_sq();
        if rr == 0 || ll == 0 {
            return Projection::Undefined;
        }
        let d: i128 = o_prime_hx.dot(&o_prime_v);
        proof {
            lemma_cauchy_schwarz(o_prime_hx@, o_prime_v@);
            lemma_projection_bounds(d as int, rr as int, ll as int);
        }
        let dd: i128 = d * d;
        let rest: i128 = rr * ll - dd;
        let v_x_abs: u64 = isqrt((dd as u128) / (ll as u128));
        let v_y: u64 = isqrt((rest as u128) / (ll as u128));
        let v_x: i64 = if d >= 0 {
            v_x_abs as i64
        } else {
            -(v_x_abs as i64)
        };
        Projection::Local(Vector2 { x: v_x, y: v_y as i64 })
    }

    /// Places the local point `v` in space, if the grid can hold the result.
    pub fn two_d_to_three_d(&self, v: Vector2) -> (res: Option<Vector3>)
        ensures
            res is Some <==> self@.embed(v@).in_range(),
            res matches Some(w) ==> w@ == self@.embed(v@),
    {
        let ox: i128 = self.origin.x() as i128;
        let oy: i128 = self.origin.y() as i128;
        let oz: i128 = self.origin.z() as i128;
        let o_prime_v_x: i128 = v.x as i128 - ox;
        let o_prime_v_y: i128 = v.y as i128 - oy;
        let o_prime_v_z: i128 = 0 - oz;
        let x: i128 = ox + o_prime_v_x;
        let y: i128 = oy + o_prime_v_y;
        let z: i128 = oz + o_prime_v_z;
        Vector3::new(x as i64, y as i64, z as i64)
    }
}

/// Placing a local point does not depend on the frame: the way from the origin
/// and back cancels, and the point lands at height zero with its two local
/// coordinates as its first two coordinates in space.
pub proof fn lemma_embed_is_flat(f: Frame, q: Point2)
    ensures
        f.embed(q) == (Point3 { x: q.x, y: q.y, z: 0 }),
{
}

/// Where the first handle is the origin, the local coordinates of every point
/// are undefined: the projection of a point on the plane is then
/// `Projection::Undefined`, never a pair of coordinates.
pub proof fn lemma_collapsed_axis_is_undefined(f: Frame, p: Point3)
    requires
        f.hx == f.origin,
    ensures
        f.undefined_at(p),
{
}

/// The local coordinates are defined at every point but the origin, if the first
/// handle is not the origin.
pub proof fn lemma_defined_off_origin(f: Frame, p: Point3)
    ensures
        f.undefined_at(p) <==> f.hx == f.origin || p == f.origin,
{
    lemma_norm_sq_zero(f.x_axis());
    lemma_norm_sq_zero(p.minus(f.origin));
}

/// What the local coordinates are, without a root or a quotient. With `a` the
/// direction of the first local axis and `q` the displacement of the point from
/// the origin: the first coordinate has the sign of `a . q`, and its magnitude is
/// the largest `k` with `k * |a| <= |a . q|`; the second is the largest `k` with
/// `(k * |a|)^2 <= |a|^2 * |q|^2 - (a . q)^2`; and the two together are no
/// longer than `q`.
pub proof fn lemma_local_coordinates_round_down(f: Frame, p: Point3)
    requires
        !f.undefined_at(p),
    ensures
        ({
            let a = f.x_axis();
            let q = p.minus(f.origin);
            let d = a.dot(q);
            let x = f.local_x(p);
            let y = f.local_y(p);
            &&& d >= 0 ==> x >= 0
            &&& d <= 0 ==> x <= 0
            &&& x * x * a.norm_sq() <= d * d
            &&& d * d < (magnitude(x) + 1) * (magnitude(x) + 1) * a.norm_sq()
            &&& y >= 0
            &&& y * y * a.norm_sq() <= q.norm_sq() * a.norm_sq() - d * d
            &&& q.norm_sq() * a.norm_sq() - d * d < (y + 1) * (y + 1) * a.norm_sq()
            &&& x * x + y * y <= q.norm_sq()
        }),
{
    let a = f.x_axis();
    let q = p.minus(f.origin);
    let d = a.dot(q);
    let ll = a.norm_sq();
    let rr = q.norm_sq();
    lemma_norm_sq_zero(a);
    lemma_norm_sq_zero(q);
    lemma_cauchy_schwarz(a, q);
    let n = (d * d) / ll;
    let m = (rr * ll - d * d) / ll;
    assert(0 <= d * d && ll * rr == rr * ll) by (nonlinear_arith);
    assert(0 <= n && n * ll <= d * d < (n + 1) * ll && 0 <= m && m * ll <= rr * ll - d * d < (m
        + 1) * ll && n + m <= rr) by (nonlinear_arith)
        requires
            0 < ll,
            0 <= d * d <= ll * rr,
            n == (d * d) / ll,
            m == (rr * ll - d * d) / ll,
    ;
    lemma_floor_sqrt_exists(n);
    lemma_floor_sqrt_exists(m);
    let s = floor_sqrt(n);
    let y = floor_sqrt(m);
    let x = f.local_x(p);
    assert(x == s || x == -s);
    assert(x * x == s * s) by (nonlinear_arith)
        requires
            x == s || x == -s,
    ;
    assert(s * s * ll <= d * d && d * d < (s + 1) * (s + 1) * ll) by (nonlinear_arith)
        requires
            0 <= s,
            0 < ll,
            s * s <= n < (s + 1) * (s + 1),
            n * ll <= d * d < (n + 1) * ll,
    ;
    assert(magnitude(x) == s);
    assert(d == 0 ==> s == 0) by (nonlinear_arith)
        requires
            0 <= s,
            0 < ll,
            s * s * ll <= d * d,
    ;
    assert(y * y * ll <= rr * ll - d * d && rr * ll - d * d < (y + 1) * (y + 1) * ll)
        by (nonlinear_arith)
        requires
            0 <= y,
            0 < ll,
            y * y <= m < (y + 1) * (y + 1),
            m * ll <= rr * ll - d * d < (m + 1) * ll,
    ;
    assert(x * x + y * y <= rr) by (nonlinear_arith)
        requires
            x * x == s * s,
            s * s <= n,
            y * y <= m,
            n + m <= rr,
    ;
}

/// The converse: a pair of numbers that meets those bounds is the pair of local
/// coordinates. So the coordinates of a given point can be confirmed by products
/// and comparisons alone.
pub proof fn lemma_local_coordinates_are_determined(f: Frame, p: Point3, x: int, y: int)
    requires
        !f.undefined_at(p),
        ({
            let a = f.x_axis();
            let q = p.minus(f.origin);
            let d = a.dot(q);
            &&& d >= 0 ==> x >= 0
            &&& d <= 0 ==> x <= 0
            &&& x * x * a.norm_sq() <= d * d
            &&& d * d < (magnitude(x) + 1) * (magnitude(x) + 1) * a.norm_sq()
            &&& y >= 0
            &&& y * y * a.norm_sq() <= q.norm_sq() * a.norm_sq() - d * d
            &&& q.norm_sq() * a.norm_sq() - d * d < (y + 1) * (y + 1) * a.norm_sq()
        }),
    ensures
        f.local(p) == (Point2 { x, y }),
{
    let a = f.x_axis();
    let q = p.minus(f.origin);
    let d = a.dot(q);
    let ll = a.norm_sq();
    let rr = q.norm_sq();
    lemma_norm_sq_zero(a);
    let n = (d * d) / ll;
    let m = (rr * ll - d * d) / ll;
    let s = magnitude(x);
    assert(s * s == x * x) by (nonlinear_arith)
        requires
            s == x || s == -x,
    ;
    assert(s * s <= n < (s + 1) * (s + 1)) by (nonlinear_arith)
        requires
            0 < ll,
            0 <= s,
            s * s * ll <= d * d < (s + 1) * (s + 1) * ll,
            n == (d * d) / ll,
    ;
    lemma_floor_sqrt_unique(n, s);
    assert(y * y <= m < (y + 1) * (y + 1)) by (nonlinear_arith)
        requires
            0 < ll,
            0 <= y,
            y * y * ll <= rr * ll - d * d < (y + 1) * (y + 1) * ll,
            m == (rr * ll - d * d) / ll,
    ;
    lemma_floor_sqrt_unique(m, y);
}

/// The sizes of what the projection computes from the dot product `d` of two
/// differences and their squared lengths `rr` and `ll`.
proof fn lemma_projection_bounds(d: int, rr: int, ll: int)
    requires
        -MAX_DOT <= d <= MAX_DOT,
        0 <= rr <= MAX_DOT,
        0 < ll <= MAX_DOT,
        d * d <= ll * rr,
    ensures
        0 <= d * d <= rr * ll <= MAX_DOT * MAX_DOT,
        0 <= (d * d) / ll <= rr,
        0 <= (rr * ll - d * d) / ll <= rr,
        0 <= floor_sqrt((d * d) / ll) <= 4_000_000_000,
        0 <= floor_sqrt((rr * ll - d * d) / ll) <= 4_000_000_000,
{
    assert(0 <= d * d && ll * rr == rr * ll && rr * ll <= MAX_DOT * MAX_DOT) by (nonlinear_arith)
        requires
            0 <= rr <= MAX_DOT,
            0 < ll <= MAX_DOT,
    ;
    assert(0 <= (d * d) / ll <= rr) by (nonlinear_arith)
        requires
            0 <= d * d <= rr * ll,
            0 < ll,
    ;
    assert(0 <= (rr * ll - d * d) / ll <= rr) by (nonlinear_arith)
        requires
            0 <= d * d <= rr * ll,
            0 < ll,
    ;
    lemma_floor_sqrt_bound((d * d) / ll, 4_000_000_000);
    lemma_floor_sqrt_bound((rr * ll - d * d) / ll, 4_000_000_000);
}

} // verus!
