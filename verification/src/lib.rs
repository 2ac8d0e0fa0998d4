//! Exact-arithmetic trapezoidal velocity profiles for a single axis.
//!
//! A `TrajectorySegment` moves a point from a start position to an end
//! position under magnitude limits on velocity and acceleration.  The solver
//! splits the move into an acceleration phase, a cruise phase and a
//! deceleration phase, falling back to a triangular ("wedge") profile when
//! the move is too short to reach the velocity limit.
//!
//! All quantities are exact: plain values are rational numbers
//! ([`rational::Rat`]), and the wedge case, whose peak velocity is the square
//! root of a rational discriminant, works in the quadratic extension of the
//! rationals.  Every solve is re-validated, and the displacement identity
//! `x1 + x2 + x3 == end - start` holds exactly, not merely within a
//! floating-point tolerance.

pub mod laws;
pub mod quad;
pub mod rational;
pub mod segment;
pub mod solver;
