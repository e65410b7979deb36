//! Planar surfaces in three-dimensional space, on a fixed-point grid.
//!
//! The crate answers two questions about a point of space: does it lie on a given
//! plane, and, for a plane that carries a frame of its own, does it lie within a
//! rectangle of that plane, centred at the origin of the frame.
//!
//! Every length is a whole number of raw steps, a million to the unit of length,
//! and every answer is an exact function of those numbers: the contracts speak of
//! integers, and nothing is rounded but where a contract says how. A point is on
//! a plane if it misses the equation of the plane by less than one raw step.
//!
//! - `scalar` holds the constants of the grid, the tolerance and the integer
//!   square root;
//! - `vector` holds points, their differences, and the algebra of both;
//! - `plane` holds the unbounded plane given by a normal and an offset;
//! - `oriented` holds the plane with a frame and the change of coordinates
//!   between space and the frame;
//! - `rectangle` holds the rectangle and its test of containment;
//! - `aligned` holds what is true of frames that run along the axes of space.

pub mod aligned;
pub mod oriented;
pub mod plane;
pub mod rectangle;
pub mod scalar;
pub mod vector;
