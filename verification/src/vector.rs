//! Vectors of the fixed-point grid and their mathematical models.

use vstd::prelude::*;
use crate::scalar::{coord_in_range, MAX_COORD};

verus! {

/// Largest magnitude of a component of a `Displacement`.
pub const MAX_DELTA: i64 = 2_000_000_000;

/// Largest magnitude of a dot product of two `Displacement`s.
pub const MAX_DOT: i128 = 12_000_000_000_000_000_000;

/// A vector of three integers: the model of `Vector3` and of `Displacement`.
pub struct Point3 {
    pub x: int,
    pub y: int,
    pub z: int,
}

/// A vector of two integers: the model of `Vector2`.
pub struct Point2 {
    pub x: int,
    pub y: int,
}

impl Point3 {
    /// The componentwise difference `self - other`.
    pub open spec fn minus(self, other: Point3) -> Point3 {
        Point3 { x: self.x - other.x, y: self.y - other.y, z: self.z - other.z }
    }

    /// The componentwise sum `self + other`.
    pub open spec fn plus(self, other: Point3) -> Point3 {
        Point3 { x: self.x + other.x, y: self.y + other.y, z: self.z + other.z }
    }

    /// The dot product of `self` and `other`.
    pub open spec fn dot(self, other: Point3) -> int {
        self.x * other.x + self.y * other.y + self.z * other.z
    }

    /// The squared Euclidean length of `self`.
    pub open spec fn norm_sq(self) -> int {
        self.dot(self)
    }

    /// Whether every component is a raw coordinate that the grid can hold.
    pub open spec fn in_range(self) -> bool {
        coord_in_range(self.x) && coord_in_range(self.y) && coord_in_range(self.z)
    }

    /// Whether every component is within the range of a difference of two grid
    /// vectors.
    pub open spec fn in_delta_range(self) -> bool {
        &&& -MAX_DELTA <= self.x <= MAX_DELTA
        &&& -MAX_DELTA <= self.y <= MAX_DELTA
        &&& -MAX_DELTA <= self.z <= MAX_DELTA
    }
}

proof fn lemma_product_bound(a: int, b: int)
    by (nonlinear_arith)
    requires
        -2_000_000_000 <= a <= 2_000_000_000,
        -2_000_000_000 <= b <= 2_000_000_000,
    ensures
        -4_000_000_000_000_000_000 <= a * b <= 4_000_000_000_000_000_000,
{
}

proof fn lemma_expand_product_of_sums(a1: int, a2: int, a3: int, b1: int, b2: int, b3: int)
    by (nonlinear_arith)
    ensures
        (a1 + a2 + a3) * (b1 + b2 + b3) == a1 * b1 + a1 * b2 + a1 * b3 + a2 * b1 + a2 * b2 + a2
            * b3 + a3 * b1 + a3 * b2 + a3 * b3,
{
}

proof fn lemma_product_of_squares(a: int, b: int)
    by (nonlinear_arith)
    ensures
        (a * a) * (b * b) == (a * b) * (a * b),
{
}

proof fn lemma_exchange_factors(a: int, b: int, c: int, d: int)
    by (nonlinear_arith)
    ensures
        (a * b) * (c * d) == (a * d) * (c * b),
{
}

proof fn lemma_square_of_difference(p: int, q: int)
    by (nonlinear_arith)
    ensures
        (p - q) * (p - q) == p * p + q * q - 2 * (p * q),
        (p - q) * (p - q) >= 0,
{
}

/// The identity of Lagrange: the product of the squared lengths of two vectors
/// exceeds their squared dot product by the squared length of their cross product.
pub proof fn lemma_lagrange_identity(a: Point3, b: Point3)
    ensures
        a.norm_sq() * b.norm_sq() - a.dot(b) * a.dot(b) == (a.x * b.y - a.y * b.x) * (a.x * b.y
            - a.y * b.x) + (a.x * b.z - a.z * b.x) * (a.x * b.z - a.z * b.x) + (a.y * b.z - a.z
            * b.y) * (a.y * b.z - a.z * b.y),
{
    let pxx = a.x * b.x;
    let pxy = a.x * b.y;
    let pxz = a.x * b.z;
    let pyx = a.y * b.x;
    let pyy = a.y * b.y;
    let pyz = a.y * b.z;
    let pzx = a.z * b.x;
    let pzy = a.z * b.y;
    let pzz = a.z * b.z;
    lemma_expand_product_of_sums(a.x * a.x, a.y * a.y, a.z * a.z, b.x * b.x, b.y * b.y, b.z * b.z);
    lemma_product_of_squares(a.x, b.x);
    lemma_product_of_squares(a.x, b.y);
    lemma_product_of_squares(a.x, b.z);
    lemma_product_of_squares(a.y, b.x);
    lemma_product_of_squares(a.y, b.y);
    lemma_product_of_squares(a.y, b.z);
    lemma_product_of_squares(a.z, b.x);
    lemma_product_of_squares(a.z, b.y);
    lemma_product_of_squares(a.z, b.z);
    assert(a.norm_sq() * b.norm_sq() == pxx * pxx + pxy * pxy + pxz * pxz + pyx * pyx + pyy * pyy
        + pyz * pyz + pzx * pzx + pzy * pzy + pzz * pzz);
    lemma_expand_product_of_sums(pxx, pyy, pzz, pxx, pyy, pzz);
    lemma_exchange_factors(a.y, b.y, a.x, b.x);
    lemma_exchange_factors(a.z, b.z, a.x, b.x);
    lemma_exchange_factors(a.z, b.z, a.y, b.y);
    lemma_exchange_factors(a.x, b.x, a.y, b.y);
    lemma_exchange_factors(a.x, b.x, a.z, b.z);
    lemma_exchange_factors(a.y, b.y, a.z, b.z);
    assert(pyy * pxx == pyx * pxy);
    assert(pzz * pxx == pzx * pxz);
    assert(pzz * pyy == pzy * pyz);
    assert(pxx * pyy == pxy * pyx);
    assert(pxx * pzz == pxz * pzx);
    assert(pyy * pzz == pyz * pzy);
    assert(a.dot(b) * a.dot(b) == pxx * pxx + pyy * pyy + pzz * pzz + 2 * (pxy * pyx) + 2 * (pxz
        * pzx) + 2 * (pyz * pzy));
    lemma_square_of_difference(pxy, pyx);
    lemma_square_of_difference(pxz, pzx);
    lemma_square_of_difference(pyz, pzy);
}

/// The inequality of Cauchy and Schwarz: the squared dot product of two vectors is
/// at most the product of their squared lengths.
pub proof fn lemma_cauchy_schwarz(a: Point3, b: Point3)
    ensures
        a.dot(b) * a.dot(b) <= a.norm_sq() * b.norm_sq(),
{
    lemma_lagrange_identity(a, b);
    lemma_square_of_difference(a.x * b.y, a.y * b.x);
    lemma_square_of_difference(a.x * b.z, a.z * b.x);
    lemma_square_of_difference(a.y * b.z, a.z * b.y);
}

/// A vector is zero exactly if its squared length is zero, and no squared length
/// is negative.
pub proof fn lemma_norm_sq_zero(a: Point3)
    ensures
        0 <= a.norm_sq(),
        a.norm_sq() == 0 <==> (a.x == 0 && a.y == 0 && a.z == 0),
{
    assert(a.x * a.x >= 0 && (a.x * a.x == 0 <==> a.x == 0)) by (nonlinear_arith);
    assert(a.y * a.y >= 0 && (a.y * a.y == 0 <==> a.y == 0)) by (nonlinear_arith);
    assert(a.z * a.z >= 0 && (a.z * a.z == 0 <==> a.z == 0)) by (nonlinear_arith);
}

/// A point of the grid: three raw coordinates, each at most `MAX_COORD` in
/// magnitude.
#[derive(Clone, Copy, Debug, PartialEq, Eq, Structural)]
pub struct Vector3 {
    x: i64,
    y: i64,
    z: i64,
}

impl View for Vector3 {
    type V = Point3;

    closed spec fn view(&self) -> Point3 {
        Point3 { x: self.x as int, y: self.y as int, z: self.z as int }
    }
}

impl Vector3 {
    /// The invariant of the type: the coordinates are in range.
    #[verifier::type_invariant]
    pub open spec fn wf(self) -> bool {
        self@.in_range()
    }

    /// Makes the point with the raw coordinates `x`, `y` and `z`, if each of them
    /// is in range.
    pub fn new(x: i64, y: i64, z: i64) -> (res: Option<Vector3>)
        ensures
            res is Some <==> coord_in_range(x as int) && coord_in_range(y as int)
                && coord_in_range(z as int),
            res matches Some(v) ==> v@ == (Point3 { x: x as int, y: y as int, z: z as int }),
    {
        if -MAX_COORD <= x && x <= MAX_COORD && -MAX_COORD <= y && y <= MAX_COORD && -MAX_COORD
            <= z && z <= MAX_COORD {
            Some(Vector3 { x, y, z })
        } else {
            None
        }
    }

    /// The first raw coordinate.
    pub fn x(&self) -> (c: i64)
        ensures
            c == self@.x,
            coord_in_range(c as int),
    {
        proof {
            use_type_invariant(self);
        }
        self.x
    }

    /// The second raw coordinate.
    pub fn y(&self) -> (c: i64)
        ensures
            c == self@.y,
            coord_in_range(c as int),
    {
        proof {
            use_type_invariant(self);
        }
        self.y
    }

    /// The third raw coordinate.
    pub fn z(&self) -> (c: i64)
        ensures
            c == self@.z,
            coord_in_range(c as int),
    {
        proof {
            use_type_invariant(self);
        }
        self.z
    }

    /// The dot product with `other`, a product of raw values.
    pub fn dot(&self, other: &Vector3) -> (r: i128)
        ensures
            r == self@.dot(other@),
            -MAX_DOT <= r <= MAX_DOT,
    {
        proof {
            use_type_invariant(self);
            use_type_invariant(other);
            lemma_product_bound(self.x as int, other.x as int);
            lemma_product_bound(self.y as int, other.y as int);
            lemma_product_bound(self.z as int, other.z as int);
        }
        let px: i128 = (self.x as i128) * (other.x as i128);
        let py: i128 = (self.y as i128) * (other.y as i128);
        let pz: i128 = (self.z as i128) * (other.z as i128);
        px + py + pz
    }

    /// The displacement that leads from `other` to `self`.
    pub fn minus(&self, other: &Vector3) -> (d: Displacement)
        ensures
            d@ == self@.minus(other@),
    {
        proof {
            use_type_invariant(self);
            use_type_invariant(other);
        }
        Displacement { dx: self.x - other.x, dy: self.y - other.y, dz: self.z - other.z }
    }
}

/// The difference of two points of the grid: three raw components, each at most
/// `MAX_DELTA` in magnitude.
#[derive(Clone, Copy, Debug, PartialEq, Eq, Structural)]
pub struct Displacement {
    dx: i64,
    dy: i64,
    dz: i64,
}

impl View for Displacement {
    type V = Point3;

    closed spec fn view(&self) -> Point3 {
        Point3 { x: self.dx as int, y: self.dy as int, z: self.dz as int }
    }
}

impl Displacement {
    /// The invariant of the type: the components are in the range of differences.
    #[verifier::type_invariant]
    pub open spec fn wf(self) -> bool {
        self@.in_delta_range()
    }

    /// The first raw component.
    pub fn x(&self) -> (c: i64)
        ensures
            c == self@.x,
            -MAX_DELTA <= c <= MAX_DELTA,
    {
        proof {
            use_type_invariant(self);
        }
        self.dx
    }

    /// The second raw component.
    pub fn y(&self) -> (c: i64)
        ensures
            c == self@.y,
            -MAX_DELTA <= c <= MAX_DELTA,
    {
        proof {
            use_type_invariant(self);
        }
        self.dy
    }

    /// The third raw component.
    pub fn z(&self) -> (c: i64)
        ensures
            c == self@.z,
            -MAX_DELTA <= c <= MAX_DELTA,
    {
        proof {
            use_type_invariant(self);
        }
        self.dz
    }

    /// The dot product with `other`, a product of raw values.
    pub fn dot(&self, other: &Displacement) -> (r: i128)
        ensures
            r == self@.dot(other@),
            -MAX_DOT <= r <= MAX_DOT,
    {
        proof {
            use_type_invariant(self);
            use_type_invariant(other);
            lemma_product_bound(self.dx as int, other.dx as int);
            lemma_product_bound(self.dy as int, other.dy as int);
            lemma_product_bound(self.dz as int, other.dz as int);
        }
        let px: i128 = (self.dx as i128) * (other.dx as i128);
        let py: i128 = (self.dy as i128) * (other.dy as i128);
        let pz: i128 = (self.dz as i128) * (other.dz as i128);
        px + py + pz
    }

    /// The squared length, a product of raw values.
    pub fn norm_sq(&self) -> (r: i128)
        ensures
            r == self@.norm_sq(),
            0 <= r <= MAX_DOT,
    {
        proof {
            lemma_norm_sq_zero(self@);
        }
        self.dot(self)
    }
}

/// A point of a plane, in the plane's own two raw coordinates.
#[derive(Clone, Copy, Debug, PartialEq, Eq, Structural)]
pub struct Vector2 {
    pub x: i64,
    pub y: i64,
}

impl View for Vector2 {
    type V = Point2;

    open spec fn view(&self) -> Point2 {
        Point2 { x: self.x as int, y: self.y as int }
    }
}

impl Vector2 {
    /// Makes the point with the raw coordinates `x` and `y`.
    pub fn new(x: i64, y: i64) -> (res: Vector2)
        ensures
            res@ == (Point2 { x: x as int, y: y as int }),
    {
        Vector2 { x, y }
    }
}

} // verus!
