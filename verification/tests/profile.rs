//! Scenario tests for the trapezoidal profile library: the solver's exact
//! outputs, the evaluator, the error cases, and the setters.

use trajectory_planner::quad::Quad;
use trajectory_planner::rational::Rat;
use trajectory_planner::segment::TrajectorySegment;
use trajectory_planner::solver::{DomainError, Limits, Phase};

fn rat(n: i64, d: i64) -> Rat {
    Rat::ratio(n, d).expect("positive denominator")
}

fn q(n: i64, d: i64) -> Quad {
    Quad::rational(rat(n, d))
}

fn limits(accel_n: i64, accel_d: i64, vel_n: i64, vel_d: i64) -> Limits {
    Limits { acceleration: rat(accel_n, accel_d), velocity: rat(vel_n, vel_d) }
}

/// The classic symmetric trapezoid: start 0, end 10, rest to rest, with
/// acceleration limit 5 and velocity limit 2.
#[test]
fn symmetric_trapezoid() {
    let seg = TrajectorySegment::new(
        rat(0, 1),
        rat(10, 1),
        rat(0, 1),
        rat(0, 1),
        limits(5, 1, 2, 1),
    )
    .expect("solvable");
    let d = seg.deltas();
    assert_eq!(d.dt1, q(2, 5));
    assert_eq!(d.dt3, q(2, 5));
    assert_eq!(d.dx1, q(2, 5));
    assert_eq!(d.dx3, q(2, 5));
    assert_eq!(d.dt2, q(23, 5));
    assert_eq!(d.dx2, q(46, 5));
    assert_eq!(seg.duration(), q(27, 5));
    assert_eq!(seg.max_reachable_velocity(), q(2, 1));
}

/// The evaluator at and around the phase boundaries of the symmetric
/// trapezoid.
#[test]
fn trapezoid_evaluation() {
    let seg = TrajectorySegment::new(
        rat(0, 1),
        rat(10, 1),
        rat(0, 1),
        rat(0, 1),
        limits(5, 1, 2, 1),
    )
    .expect("solvable");
    assert_eq!(seg.position(q(0, 1)).unwrap(), q(0, 1));
    assert_eq!(seg.position(seg.duration()).unwrap(), q(10, 1));
    // halfway through the acceleration phase: x = (1/2)*5*(1/5)^2 = 1/10
    assert_eq!(seg.position(q(1, 5)).unwrap(), q(1, 10));
    // in the cruise: x(1) = 2/5 + 2*(1 - 2/5) = 8/5
    assert_eq!(seg.position(q(1, 1)).unwrap(), q(8, 5));
    assert_eq!(seg.velocity(q(0, 1)).unwrap(), q(0, 1));
    assert_eq!(seg.velocity(q(1, 1)).unwrap(), q(2, 1));
    assert_eq!(seg.velocity(seg.duration()).unwrap(), q(0, 1));
    // velocity is continuous at the accelerate/cruise boundary
    assert_eq!(seg.velocity(q(2, 5)).unwrap(), q(2, 1));
    assert_eq!(seg.acceleration(q(0, 1)).unwrap(), rat(5, 1));
    assert_eq!(seg.acceleration(q(1, 1)).unwrap(), rat(0, 1));
    assert_eq!(seg.acceleration(q(5, 1)).unwrap(), rat(-5, 1));
}

/// Out-of-domain queries clamp to the boundary state.
#[test]
fn out_of_domain_queries_clamp() {
    let seg = TrajectorySegment::new(
        rat(0, 1),
        rat(10, 1),
        rat(0, 1),
        rat(0, 1),
        limits(5, 1, 2, 1),
    )
    .expect("solvable");
    assert_eq!(seg.position(q(-1, 1)).unwrap(), q(0, 1));
    assert_eq!(seg.position(q(100, 1)).unwrap(), q(10, 1));
    assert_eq!(seg.velocity(q(-1, 1)).unwrap(), q(0, 1));
    assert_eq!(seg.velocity(q(100, 1)).unwrap(), q(0, 1));
}

/// The wedge case: same limits, but the move is too short to reach the
/// velocity limit, so the cruise phase is exactly empty and the two
/// remaining displacements sum exactly to the move.
#[test]
fn wedge_short_move() {
    let seg = TrajectorySegment::new(
        rat(0, 1),
        rat(1, 2),
        rat(0, 1),
        rat(0, 1),
        limits(5, 1, 2, 1),
    )
    .expect("solvable");
    let d = seg.deltas();
    assert_eq!(d.dt2, q(0, 1));
    assert_eq!(d.dx2, q(0, 1));
    // the discriminant is 5 * (1/2) = 5/2; the peak velocity is sqrt(5/2)
    assert_eq!(seg.discriminant(), rat(5, 2));
    assert_eq!(seg.max_reachable_velocity(), Quad { a: rat(0, 1), b: rat(1, 1) });
    // dx1 and dx3 are rational here and sum exactly to 1/2
    assert_eq!(d.dx1, q(1, 4));
    assert_eq!(d.dx3, q(1, 4));
    // dt1 = dt3 = sqrt(5/2) / 5
    assert_eq!(d.dt1, Quad { a: rat(0, 1), b: rat(1, 5) });
    assert_eq!(d.dt3, Quad { a: rat(0, 1), b: rat(1, 5) });
    assert_eq!(seg.duration(), Quad { a: rat(0, 1), b: rat(2, 5) });
    // the evaluator still reaches the end exactly
    assert_eq!(seg.position(seg.duration()).unwrap(), q(1, 2));
    assert_eq!(seg.position(q(0, 1)).unwrap(), q(0, 1));
}

/// Invalid limits are rejected before any solve, and no segment is
/// produced.
#[test]
fn invalid_limits_rejected() {
    let r = TrajectorySegment::new(
        rat(0, 1),
        rat(10, 1),
        rat(0, 1),
        rat(0, 1),
        Limits { acceleration: rat(0, 1), velocity: rat(2, 1) },
    );
    assert_eq!(r.unwrap_err(), DomainError::InvalidLimits);
    let r = TrajectorySegment::new(
        rat(0, 1),
        rat(10, 1),
        rat(0, 1),
        rat(0, 1),
        Limits { acceleration: rat(5, 1), velocity: rat(-2, 1) },
    );
    assert_eq!(r.unwrap_err(), DomainError::InvalidLimits);
}

/// Overspeed entry: the start velocity exceeds the velocity limit in the
/// direction of travel, so the first phase decelerates even though the net
/// direction is positive, and the displacement identity still holds.
#[test]
fn overspeed_entry() {
    let seg = TrajectorySegment::new(
        rat(0, 1),
        rat(10, 1),
        rat(3, 1),
        rat(0, 1),
        limits(5, 1, 2, 1),
    )
    .expect("solvable");
    // first phase is a deceleration
    assert_eq!(seg.acceleration(q(0, 1)).unwrap(), rat(-5, 1));
    let d = seg.deltas();
    assert_eq!(d.dt1, q(1, 5));
    assert_eq!(d.dx1, q(1, 2));
    assert_eq!(d.dt2, q(91, 20));
    assert_eq!(seg.duration(), q(103, 20));
    // displacement identity: the evaluator reaches the end exactly
    assert_eq!(seg.position(seg.duration()).unwrap(), q(10, 1));
    assert_eq!(seg.velocity(q(0, 1)).unwrap(), q(3, 1));
}

/// A move in the negative direction mirrors the positive one.
#[test]
fn negative_direction_move() {
    let seg = TrajectorySegment::new(
        rat(0, 1),
        rat(-10, 1),
        rat(0, 1),
        rat(0, 1),
        limits(5, 1, 2, 1),
    )
    .expect("solvable");
    let d = seg.deltas();
    assert_eq!(d.dt1, q(2, 5));
    assert_eq!(d.dx1, q(-2, 5));
    assert_eq!(seg.max_reachable_velocity(), q(-2, 1));
    assert_eq!(seg.duration(), q(27, 5));
    assert_eq!(seg.position(seg.duration()).unwrap(), q(-10, 1));
    assert_eq!(seg.velocity(q(1, 1)).unwrap(), q(-2, 1));
}

/// A zero-length move solves to an all-zero profile.
#[test]
fn zero_length_move() {
    let seg = TrajectorySegment::new(
        rat(0, 1),
        rat(0, 1),
        rat(0, 1),
        rat(0, 1),
        limits(5, 1, 2, 1),
    )
    .expect("solvable");
    // the degenerate solve goes through the wedge with discriminant zero,
    // so the duration is 0 + (2/5) * sqrt(0): exactly zero
    assert_eq!(seg.discriminant(), rat(0, 1));
    assert_eq!(seg.duration(), Quad { a: rat(0, 1), b: rat(2, 5) });
    assert_eq!(seg.position(q(0, 1)).unwrap(), q(0, 1));
    assert_eq!(seg.velocity(q(0, 1)).unwrap(), q(0, 1));
}

/// An end velocity beyond the limit is clamped for the solve, while the
/// requested value is preserved.
#[test]
fn end_velocity_clamped() {
    let seg = TrajectorySegment::new(
        rat(0, 1),
        rat(10, 1),
        rat(0, 1),
        rat(5, 1),
        limits(5, 1, 2, 1),
    )
    .expect("solvable");
    assert_eq!(seg.end_velocity(), rat(5, 1));
    assert_eq!(seg.end_velocity_clamped(), rat(2, 1));
    // the profile never decelerates: t3 == 0, and it ends at the limit
    assert_eq!(seg.deltas().dt3, q(0, 1));
    assert_eq!(seg.velocity(seg.duration()).unwrap(), q(2, 1));
}

/// Setters re-solve the whole segment; the same value twice gives a
/// bit-identical result.
#[test]
fn setters_resolve_and_are_idempotent() {
    let mut seg = TrajectorySegment::new(
        rat(0, 1),
        rat(10, 1),
        rat(0, 1),
        rat(0, 1),
        limits(5, 1, 2, 1),
    )
    .expect("solvable");
    seg.set_velocity_limit(rat(3, 1)).expect("solvable");
    assert_eq!(seg.deltas().dt1, q(3, 5));
    assert_eq!(seg.duration(), q(59, 15));
    let once = seg;
    seg.set_velocity_limit(rat(3, 1)).expect("solvable");
    assert_eq!(seg, once);
    assert_eq!(seg.deltas(), once.deltas());
    seg.set_start_velocity(rat(1, 1)).expect("solvable");
    let after_sv = seg;
    seg.set_start_velocity(rat(1, 1)).expect("solvable");
    assert_eq!(seg, after_sv);
    seg.set_end_velocity(rat(1, 1)).expect("solvable");
    let after_ev = seg;
    seg.set_end_velocity(rat(1, 1)).expect("solvable");
    assert_eq!(seg, after_ev);
    seg.set_acceleration_limit(rat(4, 1)).expect("solvable");
    let after_acc = seg;
    seg.set_acceleration_limit(rat(4, 1)).expect("solvable");
    assert_eq!(seg, after_acc);
}

/// A failing setter leaves the segment exactly as it was.
#[test]
fn failing_setter_is_transactional() {
    let mut seg = TrajectorySegment::new(
        rat(0, 1),
        rat(10, 1),
        rat(0, 1),
        rat(0, 1),
        limits(5, 1, 2, 1),
    )
    .expect("solvable");
    let before = seg;
    assert_eq!(seg.set_acceleration_limit(rat(0, 1)).unwrap_err(), DomainError::InvalidLimits);
    assert_eq!(seg, before);
    assert_eq!(seg.set_velocity_limit(rat(-1, 1)).unwrap_err(), DomainError::InvalidLimits);
    assert_eq!(seg, before);
    assert_eq!(seg.duration(), q(27, 5));
}

/// The displacement identity holds after a setter call, too.
#[test]
fn displacement_identity_after_setter() {
    let mut seg = TrajectorySegment::new(
        rat(0, 1),
        rat(10, 1),
        rat(0, 1),
        rat(0, 1),
        limits(5, 1, 2, 1),
    )
    .expect("solvable");
    seg.set_velocity_limit(rat(3, 1)).expect("solvable");
    let d = seg.deltas();
    let sum = d.dx1.qadd(d.dx2).unwrap().qadd(d.dx3).unwrap();
    assert!(sum.eq_rat(rat(10, 1)).unwrap());
    assert_eq!(seg.position(seg.duration()).unwrap(), q(10, 1));
}

/// A wedge whose start and end velocities are both nonzero cannot satisfy
/// the displacement identity with the specified peak-velocity formula; the
/// validator rejects it exactly.
#[test]
fn wedge_displacement_mismatch_detected() {
    let r = TrajectorySegment::new(
        rat(0, 1),
        rat(1, 10),
        rat(1, 2),
        rat(1, 2),
        limits(5, 1, 2, 1),
    );
    match r.unwrap_err() {
        DomainError::DisplacementMismatch { expected, actual } => {
            assert_eq!(expected, rat(1, 10));
            assert_eq!(actual, q(1, 20));
        },
        e => panic!("unexpected error {:?}", e),
    }
}

/// Residual momentum past the target with matching entry and exit speeds
/// drives the wedge discriminant negative: no profile exists and the
/// solver says so instead of producing NaN-like garbage.
#[test]
fn unsolvable_inputs_rejected() {
    let r = TrajectorySegment::new(
        rat(0, 1),
        rat(1, 20),
        rat(1, 1),
        rat(1, 1),
        limits(5, 1, 2, 1),
    );
    match r.unwrap_err() {
        DomainError::NegativeOrNonFiniteDuration { phase, value } => {
            assert_eq!(phase, Phase::Accelerate);
            assert_eq!(value, q(-1, 4));
        },
        e => panic!("unexpected error {:?}", e),
    }
}

/// Exact arithmetic that cannot be represented reports an overflow error
/// rather than losing precision.
#[test]
fn overflow_reported() {
    let tiny = rat(1, 4_611_686_018_427_387_847);
    let r = TrajectorySegment::new(rat(0, 1), rat(10, 1), rat(0, 1), tiny, limits(5, 1, 2, 1));
    assert_eq!(r.unwrap_err(), DomainError::NumericOverflow);
}

/// Sampling the profile returns evenly spaced rows of the evaluator's
/// exact values.
#[test]
fn sampled_rows_are_exact() {
    let seg = TrajectorySegment::new(
        rat(0, 1),
        rat(10, 1),
        rat(0, 1),
        rat(0, 1),
        limits(5, 1, 2, 1),
    )
    .expect("solvable");
    let rows = seg.sample_profiles(3).expect("representable");
    assert_eq!(rows.len(), 3);
    assert_eq!(rows[0], (q(0, 1), q(0, 1), q(0, 1), rat(5, 1)));
    // the midpoint 27/10 lies in the cruise phase
    assert_eq!(rows[1], (q(27, 10), q(5, 1), q(2, 1), rat(0, 1)));
    assert_eq!(rows[2], (q(27, 5), q(10, 1), q(0, 1), rat(-5, 1)));
}

/// Solving without building a segment returns the same deltas.
#[test]
fn compute_deltas_and_limits_matches_new() {
    let (d, peak) = TrajectorySegment::compute_deltas_and_limits(
        rat(0, 1),
        rat(10, 1),
        rat(0, 1),
        rat(0, 1),
        limits(5, 1, 2, 1),
    )
    .expect("solvable");
    let seg = TrajectorySegment::new(
        rat(0, 1),
        rat(10, 1),
        rat(0, 1),
        rat(0, 1),
        limits(5, 1, 2, 1),
    )
    .expect("solvable");
    assert_eq!(d, seg.deltas());
    assert_eq!(peak, seg.max_reachable_velocity());
}
