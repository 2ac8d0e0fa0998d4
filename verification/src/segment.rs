//! The trajectory segment: a fully solved move with its evaluator.
//!
//! A segment is created solved ([`TrajectorySegment::new`] runs the solver
//! and the validator) and is changed only through setters, each of which
//! re-solves the whole segment from scratch and commits the new state only
//! when the solve succeeds; on failure the segment is left exactly as it
//! was.  The evaluator reads nothing but the cached solution.

use crate::quad::{
    lemma_qv_nonneg_congr, lemma_qvadd_congr, lemma_qveq_trans, lemma_qvscale_congr, qv_nonneg,
    qv_of_rat, qvadd, qveq, qvscale, qvsub, spec_qadd, spec_qnonneg, spec_qrat, spec_qscale,
    spec_qsub, Quad, QuadV,
};
use crate::rational::{lemma_den_pos, spec_rat, spec_ratio, Rat};
use crate::solver::{
    lemma_qv_so_congr, qv_so, second_order, solve, solved_ok, spec_so, spec_solve, DomainError,
    Deltas, Limits, Solved,
};
use vstd::prelude::*;

verus! {

/// A solved one-axis move from `start` to `end` under velocity and
/// acceleration limits.
#[derive(Clone, Copy, Debug, PartialEq, Eq, Structural)]
pub struct TrajectorySegment {
    start: Rat,
    end: Rat,
    start_velocity: Rat,
    end_velocity: Rat,
    limits: Limits,
    solved: Solved,
}

impl TrajectorySegment {
    /// The start position.
    pub closed spec fn spec_start(self) -> Rat {
        self.start
    }

    /// The end position.
    pub closed spec fn spec_end(self) -> Rat {
        self.end
    }

    /// The start velocity.
    pub closed spec fn spec_start_velocity(self) -> Rat {
        self.start_velocity
    }

    /// The end velocity as requested by the caller (unclamped).
    pub closed spec fn spec_end_velocity(self) -> Rat {
        self.end_velocity
    }

    /// The limits.
    pub closed spec fn spec_limits(self) -> Limits {
        self.limits
    }

    /// The cached solution.
    pub closed spec fn sol(self) -> Solved {
        self.solved
    }

    /// The segment's invariant: its cached solution solves and validates
    /// its own parameters (see [`solved_ok`]).  Constructors establish it
    /// and setters preserve it, whether they succeed or fail.
    pub open spec fn valid(self) -> bool {
        &&& solved_ok(
            self.spec_start(),
            self.spec_end(),
            self.spec_start_velocity(),
            self.spec_end_velocity(),
            self.spec_limits(),
            self.sol(),
        )
        &&& 1 <= self.spec_start().den()
        &&& 1 <= self.spec_end().den()
        &&& 1 <= self.spec_start_velocity().den()
        &&& 1 <= self.spec_end_velocity().den()
    }

    /// Segments with equal components are equal.
    pub proof fn lemma_ext(s1: TrajectorySegment, s2: TrajectorySegment)
        requires
            s1.spec_start() == s2.spec_start(),
            s1.spec_end() == s2.spec_end(),
            s1.spec_start_velocity() == s2.spec_start_velocity(),
            s1.spec_end_velocity() == s2.spec_end_velocity(),
            s1.spec_limits() == s2.spec_limits(),
            s1.sol() == s2.sol(),
        ensures
            s1 == s2,
    {
    }

    /// The segment with new limits and a new cached solution, everything
    /// else unchanged.
    pub closed spec fn with_limits_solution(self, lims: Limits, sol: Solved) -> TrajectorySegment {
        TrajectorySegment { limits: lims, solved: sol, ..self }
    }

    /// The segment with a new start velocity and cached solution.
    pub closed spec fn with_start_velocity_solution(self, v: Rat, sol: Solved) -> TrajectorySegment {
        TrajectorySegment { start_velocity: v, solved: sol, ..self }
    }

    /// The segment with a new end velocity and cached solution.
    pub closed spec fn with_end_velocity_solution(self, v: Rat, sol: Solved) -> TrajectorySegment {
        TrajectorySegment { end_velocity: v, solved: sol, ..self }
    }

    /// What [`Self::with_limits_solution`] leaves unchanged and what it
    /// replaces.
    pub proof fn lemma_with_limits_solution(self, lims: Limits, sol: Solved)
        ensures
            self.with_limits_solution(lims, sol).spec_start() == self.spec_start(),
            self.with_limits_solution(lims, sol).spec_end() == self.spec_end(),
            self.with_limits_solution(lims, sol).spec_start_velocity()
                == self.spec_start_velocity(),
            self.with_limits_solution(lims, sol).spec_end_velocity() == self.spec_end_velocity(),
            self.with_limits_solution(lims, sol).spec_limits() == lims,
            self.with_limits_solution(lims, sol).sol() == sol,
    {
    }

    /// What [`Self::with_start_velocity_solution`] leaves unchanged and
    /// what it replaces.
    pub proof fn lemma_with_start_velocity_solution(self, v: Rat, sol: Solved)
        ensures
            self.with_start_velocity_solution(v, sol).spec_start() == self.spec_start(),
            self.with_start_velocity_solution(v, sol).spec_end() == self.spec_end(),
            self.with_start_velocity_solution(v, sol).spec_start_velocity() == v,
            self.with_start_velocity_solution(v, sol).spec_end_velocity()
                == self.spec_end_velocity(),
            self.with_start_velocity_solution(v, sol).spec_limits() == self.spec_limits(),
            self.with_start_velocity_solution(v, sol).sol() == sol,
    {
    }

    /// What [`Self::with_end_velocity_solution`] leaves unchanged and what
    /// it replaces.
    pub proof fn lemma_with_end_velocity_solution(self, v: Rat, sol: Solved)
        ensures
            self.with_end_velocity_solution(v, sol).spec_start() == self.spec_start(),
            self.with_end_velocity_solution(v, sol).spec_end() == self.spec_end(),
            self.with_end_velocity_solution(v, sol).spec_start_velocity()
                == self.spec_start_velocity(),
            self.with_end_velocity_solution(v, sol).spec_end_velocity() == v,
            self.with_end_velocity_solution(v, sol).spec_limits() == self.spec_limits(),
            self.with_end_velocity_solution(v, sol).sol() == sol,
    {
    }

    /// Create a fully solved segment, or return the solver's error without
    /// producing one.
    pub fn new(start: Rat, end: Rat, start_velocity: Rat, end_velocity: Rat, limits: Limits) -> (r:
        Result<TrajectorySegment, DomainError>)
        ensures
            r is Ok <==> spec_solve(start, end, start_velocity, end_velocity, limits) is Ok,
            r matches Ok(seg) ==> {
                &&& seg.valid()
                &&& seg.spec_start() == start
                &&& seg.spec_end() == end
                &&& seg.spec_start_velocity() == start_velocity
                &&& seg.spec_end_velocity() == end_velocity
                &&& seg.spec_limits() == limits
                &&& Ok::<Solved, DomainError>(seg.sol()) == spec_solve(
                    start,
                    end,
                    start_velocity,
                    end_velocity,
                    limits,
                )
            },
            r matches Err(e) ==> Err::<Solved, DomainError>(e) == spec_solve(
                start,
                end,
                start_velocity,
                end_velocity,
                limits,
            ),
    {
        proof {
            use_type_invariant(start);
            use_type_invariant(end);
            use_type_invariant(start_velocity);
            use_type_invariant(end_velocity);
        }
        match solve(start, end, start_velocity, end_velocity, limits) {
            Ok(sol) => Ok(
                TrajectorySegment { start, end, start_velocity, end_velocity, limits, solved: sol },
            ),
            Err(e) => Err(e),
        }
    }

    /// The state after [`Self::set_velocity_limit`]: the re-solved segment
    /// on success, the unchanged segment on failure.
    pub open spec fn spec_after_set_velocity_limit(self, limit: Rat) -> TrajectorySegment {
        let lims = Limits { acceleration: self.spec_limits().acceleration, velocity: limit };
        match spec_solve(
            self.spec_start(),
            self.spec_end(),
            self.spec_start_velocity(),
            self.spec_end_velocity(),
            lims,
        ) {
            Ok(sol) => self.with_limits_solution(lims, sol),
            Err(e) => self,
        }
    }

    /// Replace the velocity limit, re-solving the whole segment; on failure
    /// the segment is unchanged and the error is returned.
    pub fn set_velocity_limit(&mut self, limit: Rat) -> (r: Result<(), DomainError>)
        requires
            old(self).valid(),
        ensures
            *final(self) == old(self).spec_after_set_velocity_limit(limit),
            final(self).valid(),
            r is Ok <==> spec_solve(
                old(self).spec_start(),
                old(self).spec_end(),
                old(self).spec_start_velocity(),
                old(self).spec_end_velocity(),
                Limits { acceleration: old(self).spec_limits().acceleration, velocity: limit },
            ) is Ok,
            r matches Err(e) ==> *final(self) == *old(self) && Err::<Solved, DomainError>(e)
                == spec_solve(
                old(self).spec_start(),
                old(self).spec_end(),
                old(self).spec_start_velocity(),
                old(self).spec_end_velocity(),
                Limits { acceleration: old(self).spec_limits().acceleration, velocity: limit },
            ),
    {
        let lims = Limits { acceleration: self.limits.acceleration, velocity: limit };
        match solve(self.start, self.end, self.start_velocity, self.end_velocity, lims) {
            Ok(sol) => {
                self.limits = lims;
                self.solved = sol;
                Ok(())
            },
            Err(e) => Err(e),
        }
    }

    /// The state after [`Self::set_acceleration_limit`].
    pub open spec fn spec_after_set_acceleration_limit(self, limit: Rat) -> TrajectorySegment {
        let lims = Limits { acceleration: limit, velocity: self.spec_limits().velocity };
        match spec_solve(
            self.spec_start(),
            self.spec_end(),
            self.spec_start_velocity(),
            self.spec_end_velocity(),
            lims,
        ) {
            Ok(sol) => self.with_limits_solution(lims, sol),
            Err(e) => self,
        }
    }

    /// Replace the acceleration limit, re-solving the whole segment; on
    /// failure the segment is unchanged and the error is returned.
    pub fn set_acceleration_limit(&mut self, limit: Rat) -> (r: Result<(), DomainError>)
        requires
            old(self).valid(),
        ensures
            *final(self) == old(self).spec_after_set_acceleration_limit(limit),
            final(self).valid(),
            r is Ok <==> spec_solve(
                old(self).spec_start(),
                old(self).spec_end(),
                old(self).spec_start_velocity(),
                old(self).spec_end_velocity(),
                Limits { acceleration: limit, velocity: old(self).spec_limits().velocity },
            ) is Ok,
            r matches Err(e) ==> *final(self) == *old(self) && Err::<Solved, DomainError>(e)
                == spec_solve(
                old(self).spec_start(),
                old(self).spec_end(),
                old(self).spec_start_velocity(),
                old(self).spec_end_velocity(),
                Limits { acceleration: limit, velocity: old(self).spec_limits().velocity },
            ),
    {
        let lims = Limits { acceleration: limit, velocity: self.limits.velocity };
        match solve(self.start, self.end, self.start_velocity, self.end_velocity, lims) {
            Ok(sol) => {
                self.limits = lims;
                self.solved = sol;
                Ok(())
            },
            Err(e) => Err(e),
        }
    }

    /// The state after [`Self::set_start_velocity`].
    pub open spec fn spec_after_set_start_velocity(self, velocity: Rat) -> TrajectorySegment {
        match spec_solve(
            self.spec_start(),
            self.spec_end(),
            velocity,
            self.spec_end_velocity(),
            self.spec_limits(),
        ) {
            Ok(sol) => self.with_start_velocity_solution(velocity, sol),
            Err(e) => self,
        }
    }

    /// Replace the start velocity, re-solving the whole segment; on failure
    /// the segment is unchanged and the error is returned.
    pub fn set_start_velocity(&mut self, velocity: Rat) -> (r: Result<(), DomainError>)
        requires
            old(self).valid(),
        ensures
            *final(self) == old(self).spec_after_set_start_velocity(velocity),
            final(self).valid(),
            r is Ok <==> spec_solve(
                old(self).spec_start(),
                old(self).spec_end(),
                velocity,
                old(self).spec_end_velocity(),
                old(self).spec_limits(),
            ) is Ok,
            r matches Err(e) ==> *final(self) == *old(self) && Err::<Solved, DomainError>(e)
                == spec_solve(
                old(self).spec_start(),
                old(self).spec_end(),
                velocity,
                old(self).spec_end_velocity(),
                old(self).spec_limits(),
            ),
    {
        proof {
            use_type_invariant(velocity);
        }
        match solve(self.start, self.end, velocity, self.end_velocity, self.limits) {
            Ok(sol) => {
                self.start_velocity = velocity;
                self.solved = sol;
                Ok(())
            },
            Err(e) => Err(e),
        }
    }

    /// The state after [`Self::set_end_velocity`].
    pub open spec fn spec_after_set_end_velocity(self, velocity: Rat) -> TrajectorySegment {
        match spec_solve(
            self.spec_start(),
            self.spec_end(),
            self.spec_start_velocity(),
            velocity,
            self.spec_limits(),
        ) {
            Ok(sol) => self.with_end_velocity_solution(velocity, sol),
            Err(e) => self,
        }
    }

    /// Replace the requested end velocity (stored unclamped; the solver
    /// clamps its own copy), re-solving the whole segment; on failure the
    /// segment is unchanged and the error is returned.
    pub fn set_end_velocity(&mut self, velocity: Rat) -> (r: Result<(), DomainError>)
        requires
            old(self).valid(),
        ensures
            *final(self) == old(self).spec_after_set_end_velocity(velocity),
            final(self).valid(),
            r is Ok <==> spec_solve(
                old(self).spec_start(),
                old(self).spec_end(),
                old(self).spec_start_velocity(),
                velocity,
                old(self).spec_limits(),
            ) is Ok,
            r matches Err(e) ==> *final(self) == *old(self) && Err::<Solved, DomainError>(e)
                == spec_solve(
                old(self).spec_start(),
                old(self).spec_end(),
                old(self).spec_start_velocity(),
                velocity,
                old(self).spec_limits(),
            ),
    {
        proof {
            use_type_invariant(velocity);
        }
        match solve(self.start, self.end, self.start_velocity, velocity, self.limits) {
            Ok(sol) => {
                self.end_velocity = velocity;
                self.solved = sol;
                Ok(())
            },
            Err(e) => Err(e),
        }
    }

    /// Read the start position.
    pub fn start(&self) -> (r: Rat)
        ensures
            r == self.spec_start(),
    {
        self.start
    }

    /// Read the end position.
    pub fn end(&self) -> (r: Rat)
        ensures
            r == self.spec_end(),
    {
        self.end
    }

    /// Read the start velocity.
    pub fn start_velocity(&self) -> (r: Rat)
        ensures
            r == self.spec_start_velocity(),
    {
        self.start_velocity
    }

    /// Read the requested (unclamped) end velocity.
    pub fn end_velocity(&self) -> (r: Rat)
        ensures
            r == self.spec_end_velocity(),
    {
        self.end_velocity
    }

    /// Read the limits.
    pub fn limits(&self) -> (r: Limits)
        ensures
            r == self.spec_limits(),
    {
        self.limits
    }

    /// Read the cached phase durations and displacements.
    pub fn deltas(&self) -> (r: Deltas)
        ensures
            r == self.sol().deltas,
    {
        self.solved.deltas
    }

    /// Read the signed peak velocity actually reached (lower in magnitude
    /// than the velocity limit in the wedge case).
    pub fn max_reachable_velocity(&self) -> (r: Quad)
        ensures
            r == self.sol().peak,
    {
        self.solved.peak
    }

    /// Read the end velocity the solver actually used: the requested one
    /// clamped to the velocity limit.
    pub fn end_velocity_clamped(&self) -> (r: Rat)
        ensures
            r == self.sol().end_velocity_clamped,
    {
        self.solved.end_velocity_clamped
    }

    /// Read the discriminant of the quadratic extension the cached values
    /// live in (zero for a full trapezoid).
    pub fn discriminant(&self) -> (r: Rat)
        ensures
            r == self.sol().disc,
    {
        self.solved.disc
    }

    /// Total duration of the move, `dt1 + dt2 + dt3`.
    pub fn duration(&self) -> (r: Quad)
        ensures
            r == self.sol().total,
    {
        self.solved.total
    }

    /// The time is before the move begins.
    pub open spec fn spec_before_start(self, t: QuadV) -> bool {
        !qv_nonneg(t, self.sol().disc.v())
    }

    /// The time is at or past the end of the move.
    pub open spec fn spec_past_end(self, t: QuadV) -> bool {
        qv_nonneg(qvsub(t, self.sol().total.vv()), self.sol().disc.v())
    }

    /// The time falls in the acceleration phase (`t < dt1`).
    pub open spec fn spec_in_accel(self, t: QuadV) -> bool {
        !qv_nonneg(qvsub(t, self.sol().deltas.dt1.vv()), self.sol().disc.v())
    }

    /// The time falls in the cruise phase (`dt1 <= t < dt1 + dt2`).
    pub open spec fn spec_in_cruise(self, t: QuadV) -> bool {
        !qv_nonneg(
            qvsub(qvsub(t, self.sol().deltas.dt1.vv()), self.sol().deltas.dt2.vv()),
            self.sol().disc.v(),
        )
    }

    /// The position at time `t`, as a value: clamped to the boundary state
    /// outside `[0, duration]`, and given by the phase's second-order
    /// equation inside, with the phase-local start position, start velocity
    /// and signed acceleration.
    pub open spec fn spec_position_v(self, t: QuadV) -> QuadV {
        let sol = self.sol();
        let d = sol.deltas;
        let sv = sol.disc.v();
        if self.spec_before_start(t) {
            qv_of_rat(self.spec_start().v())
        } else if self.spec_past_end(t) {
            qv_of_rat(self.spec_end().v())
        } else if self.spec_in_accel(t) {
            qv_so(
                t,
                qv_of_rat(self.spec_start().v()),
                qv_of_rat(self.spec_start_velocity().v()),
                sol.accel.v(),
                sv,
            )
        } else if self.spec_in_cruise(t) {
            qv_so(
                qvsub(t, d.dt1.vv()),
                qvadd(qv_of_rat(self.spec_start().v()), d.dx1.vv()),
                sol.peak.vv(),
                (0int, 1int),
                sv,
            )
        } else {
            qv_so(
                qvsub(qvsub(t, d.dt1.vv()), d.dt2.vv()),
                qvadd(qvadd(qv_of_rat(self.spec_start().v()), d.dx1.vv()), d.dx2.vv()),
                sol.peak.vv(),
                sol.decel.v(),
                sv,
            )
        }
    }

    /// The velocity at time `t`, as a value: the boundary velocity outside
    /// `[0, duration]`, and linear in each phase inside, with the signed
    /// accelerations the solver chose.
    pub open spec fn spec_velocity_v(self, t: QuadV) -> QuadV {
        let sol = self.sol();
        let d = sol.deltas;
        let sv = sol.disc.v();
        if self.spec_before_start(t) {
            qv_of_rat(self.spec_start_velocity().v())
        } else if self.spec_past_end(t) {
            qv_of_rat(sol.end_velocity_clamped.v())
        } else if self.spec_in_accel(t) {
            qvadd(qv_of_rat(self.spec_start_velocity().v()), qvscale(sol.accel.v(), t))
        } else if self.spec_in_cruise(t) {
            sol.peak.vv()
        } else {
            qvadd(sol.peak.vv(), qvscale(sol.decel.v(), qvsub(qvsub(t, d.dt1.vv()), d.dt2.vv())))
        }
    }

    /// The acceleration at time `t`: piecewise constant, the signed
    /// acceleration of the phase the time falls in.
    pub open spec fn spec_acceleration_r(self, t: QuadV) -> Rat {
        if self.spec_in_accel(t) {
            self.sol().accel
        } else if self.spec_in_cruise(t) {
            spec_rat(0, 1)
        } else {
            self.sol().decel
        }
    }

    /// Mirror of [`Self::position`]: the exact computation, step for step,
    /// over the operation mirrors.  `Err(NumericOverflow)` exactly when an
    /// intermediate value leaves the representable range.
    pub open spec fn spec_position(self, time: Quad) -> Result<Quad, DomainError> {
        let sol = self.sol();
        let d = sol.deltas;
        match spec_qnonneg(time, sol.disc) {
            None => Err(DomainError::NumericOverflow),
            Some(false) => Ok(spec_qrat(self.spec_start())),
            Some(true) => match spec_qsub(time, sol.total) {
                None => Err(DomainError::NumericOverflow),
                Some(past) => match spec_qnonneg(past, sol.disc) {
                    None => Err(DomainError::NumericOverflow),
                    Some(true) => Ok(spec_qrat(self.spec_end())),
                    Some(false) => match spec_qsub(time, d.dt1) {
                        None => Err(DomainError::NumericOverflow),
                        Some(r1) => match spec_qnonneg(r1, sol.disc) {
                            None => Err(DomainError::NumericOverflow),
                            Some(false) => match spec_so(
                                time,
                                spec_qrat(self.spec_start()),
                                spec_qrat(self.spec_start_velocity()),
                                sol.accel,
                                sol.disc,
                            ) {
                                None => Err(DomainError::NumericOverflow),
                                Some(res) => Ok(res),
                            },
                            Some(true) => match spec_qsub(r1, d.dt2) {
                                None => Err(DomainError::NumericOverflow),
                                Some(r2) => match spec_qnonneg(r2, sol.disc) {
                                    None => Err(DomainError::NumericOverflow),
                                    Some(false) => match spec_qadd(
                                        spec_qrat(self.spec_start()),
                                        d.dx1,
                                    ) {
                                        None => Err(DomainError::NumericOverflow),
                                        Some(x0) => match spec_so(
                                            r1,
                                            x0,
                                            sol.peak,
                                            spec_rat(0, 1),
                                            sol.disc,
                                        ) {
                                            None => Err(DomainError::NumericOverflow),
                                            Some(res) => Ok(res),
                                        },
                                    },
                                    Some(true) => match spec_qadd(
                                        spec_qrat(self.spec_start()),
                                        d.dx1,
                                    ) {
                                        None => Err(DomainError::NumericOverflow),
                                        Some(x0a) => match spec_qadd(x0a, d.dx2) {
                                            None => Err(DomainError::NumericOverflow),
                                            Some(x0) => match spec_so(
                                                r2,
                                                x0,
                                                sol.peak,
                                                sol.decel,
                                                sol.disc,
                                            ) {
                                                None => Err(DomainError::NumericOverflow),
                                                Some(res) => Ok(res),
                                            },
                                        },
                                    },
                                },
                            },
                        },
                    },
                },
            },
        }
    }

    /// The position at a given time (see [`Self::spec_position_v`]).  The
    /// result is pinned to [`Self::spec_position`], so it succeeds if and
    /// only if that exact computation stays in the representable range, and
    /// the returned value denotes the piecewise second-order position.
    pub fn position(&self, time: Quad) -> (r: Result<Quad, DomainError>)
        requires
            self.valid(),
        ensures
            r == self.spec_position(time),
            r matches Ok(p) ==> qveq(p.vv(), self.spec_position_v(time.vv())) && p.wf_dens(),
            r matches Err(e) ==> e == DomainError::NumericOverflow,
    {
        proof {
            use_type_invariant(time.a);
            use_type_invariant(time.b);
            use_type_invariant(self.start);
            use_type_invariant(self.end);
            use_type_invariant(self.start_velocity);
        }
        let disc = self.solved.disc;
        let nn = match time.nonneg(disc) {
            Some(b) => b,
            None => return Err(DomainError::NumericOverflow),
        };
        if !nn {
            return Ok(Quad::rational(self.start));
        }
        let past = match time.qsub(self.solved.total) {
            Some(x) => x,
            None => return Err(DomainError::NumericOverflow),
        };
        let pe = match past.nonneg(disc) {
            Some(b) => b,
            None => return Err(DomainError::NumericOverflow),
        };
        proof {
            lemma_den_pos(time.a.den(), self.solved.total.a.den());
            lemma_den_pos(time.b.den(), self.solved.total.b.den());
            lemma_qv_nonneg_congr(
                past.vv(),
                qvsub(time.vv(), self.solved.total.vv()),
                disc.v(),
            );
        }
        if pe {
            return Ok(Quad::rational(self.end));
        }
        let r1 = match time.qsub(self.solved.deltas.dt1) {
            Some(x) => x,
            None => return Err(DomainError::NumericOverflow),
        };
        let ge1 = match r1.nonneg(disc) {
            Some(b) => b,
            None => return Err(DomainError::NumericOverflow),
        };
        proof {
            lemma_den_pos(time.a.den(), self.solved.deltas.dt1.a.den());
            lemma_den_pos(time.b.den(), self.solved.deltas.dt1.b.den());
            lemma_qv_nonneg_congr(
                r1.vv(),
                qvsub(time.vv(), self.solved.deltas.dt1.vv()),
                disc.v(),
            );
        }
        if !ge1 {
            let res = match second_order(
                time,
                Quad::rational(self.start),
                Quad::rational(self.start_velocity),
                self.solved.accel,
                disc,
            ) {
                Some(x) => x,
                None => return Err(DomainError::NumericOverflow),
            };
            return Ok(res);
        }
        let r2 = match r1.qsub(self.solved.deltas.dt2) {
            Some(x) => x,
            None => return Err(DomainError::NumericOverflow),
        };
        let ge2 = match r2.nonneg(disc) {
            Some(b) => b,
            None => return Err(DomainError::NumericOverflow),
        };
        proof {
            lemma_qvadd_congr(
                r1.vv(),
                qvsub(time.vv(), self.solved.deltas.dt1.vv()),
                self.solved.deltas.dt2.vv(),
                self.solved.deltas.dt2.vv(),
            );
            lemma_qveq_trans(
                r2.vv(),
                qvsub(r1.vv(), self.solved.deltas.dt2.vv()),
                qvsub(qvsub(time.vv(), self.solved.deltas.dt1.vv()), self.solved.deltas.dt2.vv()),
            );
            lemma_qv_nonneg_congr(
                r2.vv(),
                qvsub(qvsub(time.vv(), self.solved.deltas.dt1.vv()), self.solved.deltas.dt2.vv()),
                disc.v(),
            );
        }
        if !ge2 {
            let x0 = match Quad::rational(self.start).qadd(self.solved.deltas.dx1) {
                Some(x) => x,
                None => return Err(DomainError::NumericOverflow),
            };
            let res = match second_order(r1, x0, self.solved.peak, Rat::from_int(0), disc) {
                Some(x) => x,
                None => return Err(DomainError::NumericOverflow),
            };
            proof {
                lemma_den_pos(self.start.den(), self.solved.deltas.dx1.a.den());
                lemma_den_pos(1, self.solved.deltas.dx1.b.den());
                lemma_qv_so_congr(
                    r1.vv(),
                    qvsub(time.vv(), self.solved.deltas.dt1.vv()),
                    x0.vv(),
                    qvadd(qv_of_rat(self.start.v()), self.solved.deltas.dx1.vv()),
                    self.solved.peak.vv(),
                    self.solved.peak.vv(),
                    (0int, 1int),
                    disc.v(),
                );
                lemma_qveq_trans(
                    res.vv(),
                    qv_so(r1.vv(), x0.vv(), self.solved.peak.vv(), (0int, 1int), disc.v()),
                    self.spec_position_v(time.vv()),
                );
            }
            return Ok(res);
        }
        let x0a = match Quad::rational(self.start).qadd(self.solved.deltas.dx1) {
            Some(x) => x,
            None => return Err(DomainError::NumericOverflow),
        };
        let x0 = match x0a.qadd(self.solved.deltas.dx2) {
            Some(x) => x,
            None => return Err(DomainError::NumericOverflow),
        };
        let res = match second_order(r2, x0, self.solved.peak, self.solved.decel, disc) {
            Some(x) => x,
            None => return Err(DomainError::NumericOverflow),
        };
        proof {
            lemma_den_pos(self.start.den(), self.solved.deltas.dx1.a.den());
            lemma_den_pos(1, self.solved.deltas.dx1.b.den());
            lemma_qvadd_congr(
                x0a.vv(),
                qvadd(qv_of_rat(self.start.v()), self.solved.deltas.dx1.vv()),
                self.solved.deltas.dx2.vv(),
                self.solved.deltas.dx2.vv(),
            );
            lemma_qveq_trans(
                x0.vv(),
                qvadd(x0a.vv(), self.solved.deltas.dx2.vv()),
                qvadd(
                    qvadd(qv_of_rat(self.start.v()), self.solved.deltas.dx1.vv()),
                    self.solved.deltas.dx2.vv(),
                ),
            );
            lemma_qv_so_congr(
                r2.vv(),
                qvsub(qvsub(time.vv(), self.solved.deltas.dt1.vv()), self.solved.deltas.dt2.vv()),
                x0.vv(),
                qvadd(
                    qvadd(qv_of_rat(self.start.v()), self.solved.deltas.dx1.vv()),
                    self.solved.deltas.dx2.vv(),
                ),
                self.solved.peak.vv(),
                self.solved.peak.vv(),
                self.solved.decel.v(),
                disc.v(),
            );
            lemma_qveq_trans(
                res.vv(),
                qv_so(r2.vv(), x0.vv(), self.solved.peak.vv(), self.solved.decel.v(), disc.v()),
                self.spec_position_v(time.vv()),
            );
        }
        Ok(res)
    }

    /// Mirror of [`Self::velocity`]: the exact computation, step for step,
    /// over the operation mirrors.
    pub open spec fn spec_velocity(self, time: Quad) -> Result<Quad, DomainError> {
        let sol = self.sol();
        let d = sol.deltas;
        match spec_qnonneg(time, sol.disc) {
            None => Err(DomainError::NumericOverflow),
            Some(false) => Ok(spec_qrat(self.spec_start_velocity())),
            Some(true) => match spec_qsub(time, sol.total) {
                None => Err(DomainError::NumericOverflow),
                Some(past) => match spec_qnonneg(past, sol.disc) {
                    None => Err(DomainError::NumericOverflow),
                    Some(true) => Ok(spec_qrat(sol.end_velocity_clamped)),
                    Some(false) => match spec_qsub(time, d.dt1) {
                        None => Err(DomainError::NumericOverflow),
                        Some(r1) => match spec_qnonneg(r1, sol.disc) {
                            None => Err(DomainError::NumericOverflow),
                            Some(false) => match spec_qscale(sol.accel, time) {
                                None => Err(DomainError::NumericOverflow),
                                Some(at) => match spec_qadd(
                                    spec_qrat(self.spec_start_velocity()),
                                    at,
                                ) {
                                    None => Err(DomainError::NumericOverflow),
                                    Some(res) => Ok(res),
                                },
                            },
                            Some(true) => match spec_qsub(r1, d.dt2) {
                                None => Err(DomainError::NumericOverflow),
                                Some(r2) => match spec_qnonneg(r2, sol.disc) {
                                    None => Err(DomainError::NumericOverflow),
                                    Some(false) => Ok(sol.peak),
                                    Some(true) => match spec_qscale(sol.decel, r2) {
                                        None => Err(DomainError::NumericOverflow),
                                        Some(dv) => match spec_qadd(sol.peak, dv) {
                                            None => Err(DomainError::NumericOverflow),
                                            Some(res) => Ok(res),
                                        },
                                    },
                                },
                            },
                        },
                    },
                },
            },
        }
    }

    /// The velocity at a given time (see [`Self::spec_velocity_v`]).  The
    /// result is pinned to [`Self::spec_velocity`], so it succeeds if and
    /// only if that exact computation stays in the representable range, and
    /// the returned value denotes the piecewise linear velocity.
    pub fn velocity(&self, time: Quad) -> (r: Result<Quad, DomainError>)
        requires
            self.valid(),
        ensures
            r == self.spec_velocity(time),
            r matches Ok(v) ==> qveq(v.vv(), self.spec_velocity_v(time.vv())) && v.wf_dens(),
            r matches Err(e) ==> e == DomainError::NumericOverflow,
    {
        proof {
            use_type_invariant(time.a);
            use_type_invariant(time.b);
            use_type_invariant(self.start_velocity);
        }
        let disc = self.solved.disc;
        let nn = match time.nonneg(disc) {
            Some(b) => b,
            None => return Err(DomainError::NumericOverflow),
        };
        if !nn {
            return Ok(Quad::rational(self.start_velocity));
        }
        let past = match time.qsub(self.solved.total) {
            Some(x) => x,
            None => return Err(DomainError::NumericOverflow),
        };
        let pe = match past.nonneg(disc) {
            Some(b) => b,
            None => return Err(DomainError::NumericOverflow),
        };
        proof {
            lemma_den_pos(time.a.den(), self.solved.total.a.den());
            lemma_den_pos(time.b.den(), self.solved.total.b.den());
            lemma_qv_nonneg_congr(
                past.vv(),
                qvsub(time.vv(), self.solved.total.vv()),
                disc.v(),
            );
        }
        if pe {
            return Ok(Quad::rational(self.solved.end_velocity_clamped));
        }
        let r1 = match time.qsub(self.solved.deltas.dt1) {
            Some(x) => x,
            None => return Err(DomainError::NumericOverflow),
        };
        let ge1 = match r1.nonneg(disc) {
            Some(b) => b,
            None => return Err(DomainError::NumericOverflow),
        };
        proof {
            lemma_den_pos(time.a.den(), self.solved.deltas.dt1.a.den());
            lemma_den_pos(time.b.den(), self.solved.deltas.dt1.b.den());
            lemma_qv_nonneg_congr(
                r1.vv(),
                qvsub(time.vv(), self.solved.deltas.dt1.vv()),
                disc.v(),
            );
        }
        if !ge1 {
            let at = match time.scale(self.solved.accel) {
                Some(x) => x,
                None => return Err(DomainError::NumericOverflow),
            };
            let res = match Quad::rational(self.start_velocity).qadd(at) {
                Some(x) => x,
                None => return Err(DomainError::NumericOverflow),
            };
            proof {
                lemma_den_pos(self.solved.accel.den(), time.a.den());
                lemma_den_pos(self.solved.accel.den(), time.b.den());
                lemma_qvadd_congr(
                    qv_of_rat(self.start_velocity.v()),
                    qv_of_rat(self.start_velocity.v()),
                    at.vv(),
                    qvscale(self.solved.accel.v(), time.vv()),
                );
                lemma_qveq_trans(
                    res.vv(),
                    qvadd(qv_of_rat(self.start_velocity.v()), at.vv()),
                    qvadd(
                        qv_of_rat(self.start_velocity.v()),
                        qvscale(self.solved.accel.v(), time.vv()),
                    ),
                );
            }
            return Ok(res);
        }
        let r2 = match r1.qsub(self.solved.deltas.dt2) {
            Some(x) => x,
            None => return Err(DomainError::NumericOverflow),
        };
        let ge2 = match r2.nonneg(disc) {
            Some(b) => b,
            None => return Err(DomainError::NumericOverflow),
        };
        proof {
            lemma_qvadd_congr(
                r1.vv(),
                qvsub(time.vv(), self.solved.deltas.dt1.vv()),
                self.solved.deltas.dt2.vv(),
                self.solved.deltas.dt2.vv(),
            );
            lemma_qveq_trans(
                r2.vv(),
                qvsub(r1.vv(), self.solved.deltas.dt2.vv()),
                qvsub(qvsub(time.vv(), self.solved.deltas.dt1.vv()), self.solved.deltas.dt2.vv()),
            );
            lemma_qv_nonneg_congr(
                r2.vv(),
                qvsub(qvsub(time.vv(), self.solved.deltas.dt1.vv()), self.solved.deltas.dt2.vv()),
                disc.v(),
            );
        }
        if !ge2 {
            return Ok(self.solved.peak);
        }
        let dt = match r2.scale(self.solved.decel) {
            Some(x) => x,
            None => return Err(DomainError::NumericOverflow),
        };
        let res = match self.solved.peak.qadd(dt) {
            Some(x) => x,
            None => return Err(DomainError::NumericOverflow),
        };
        proof {
            lemma_qvscale_congr(
                self.solved.decel.v(),
                self.solved.decel.v(),
                r2.vv(),
                qvsub(qvsub(time.vv(), self.solved.deltas.dt1.vv()), self.solved.deltas.dt2.vv()),
            );
            lemma_qveq_trans(
                dt.vv(),
                qvscale(self.solved.decel.v(), r2.vv()),
                qvscale(
                    self.solved.decel.v(),
                    qvsub(
                        qvsub(time.vv(), self.solved.deltas.dt1.vv()),
                        self.solved.deltas.dt2.vv(),
                    ),
                ),
            );
            lemma_qvadd_congr(
                self.solved.peak.vv(),
                self.solved.peak.vv(),
                dt.vv(),
                qvscale(
                    self.solved.decel.v(),
                    qvsub(
                        qvsub(time.vv(), self.solved.deltas.dt1.vv()),
                        self.solved.deltas.dt2.vv(),
                    ),
                ),
            );
            lemma_qveq_trans(
                res.vv(),
                qvadd(self.solved.peak.vv(), dt.vv()),
                self.spec_velocity_v(time.vv()),
            );
        }
        Ok(res)
    }

    /// Mirror of [`Self::acceleration`]: the exact computation, step for
    /// step, over the operation mirrors.
    pub open spec fn spec_acceleration(self, time: Quad) -> Result<Rat, DomainError> {
        let sol = self.sol();
        let d = sol.deltas;
        match spec_qsub(time, d.dt1) {
            None => Err(DomainError::NumericOverflow),
            Some(r1) => match spec_qnonneg(r1, sol.disc) {
                None => Err(DomainError::NumericOverflow),
                Some(false) => Ok(sol.accel),
                Some(true) => match spec_qsub(r1, d.dt2) {
                    None => Err(DomainError::NumericOverflow),
                    Some(r2) => match spec_qnonneg(r2, sol.disc) {
                        None => Err(DomainError::NumericOverflow),
                        Some(false) => Ok(spec_rat(0, 1)),
                        Some(true) => Ok(sol.decel),
                    },
                },
            },
        }
    }

    /// The acceleration at a given time (see
    /// [`Self::spec_acceleration_r`]).  The result is pinned to
    /// [`Self::spec_acceleration`], so it succeeds if and only if that
    /// exact computation stays in the representable range, and the returned
    /// value is the piecewise-constant signed acceleration.
    pub fn acceleration(&self, time: Quad) -> (r: Result<Rat, DomainError>)
        requires
            self.valid(),
        ensures
            r == self.spec_acceleration(time),
            r matches Ok(a) ==> a == self.spec_acceleration_r(time.vv()),
            r matches Err(e) ==> e == DomainError::NumericOverflow,
    {
        proof {
            use_type_invariant(time.a);
            use_type_invariant(time.b);
        }
        let disc = self.solved.disc;
        let r1 = match time.qsub(self.solved.deltas.dt1) {
            Some(x) => x,
            None => return Err(DomainError::NumericOverflow),
        };
        let ge1 = match r1.nonneg(disc) {
            Some(b) => b,
            None => return Err(DomainError::NumericOverflow),
        };
        proof {
            lemma_den_pos(time.a.den(), self.solved.deltas.dt1.a.den());
            lemma_den_pos(time.b.den(), self.solved.deltas.dt1.b.den());
            lemma_qv_nonneg_congr(
                r1.vv(),
                qvsub(time.vv(), self.solved.deltas.dt1.vv()),
                disc.v(),
            );
        }
        if !ge1 {
            return Ok(self.solved.accel);
        }
        let r2 = match r1.qsub(self.solved.deltas.dt2) {
            Some(x) => x,
            None => return Err(DomainError::NumericOverflow),
        };
        let ge2 = match r2.nonneg(disc) {
            Some(b) => b,
            None => return Err(DomainError::NumericOverflow),
        };
        proof {
            lemma_qvadd_congr(
                r1.vv(),
                qvsub(time.vv(), self.solved.deltas.dt1.vv()),
                self.solved.deltas.dt2.vv(),
                self.solved.deltas.dt2.vv(),
            );
            lemma_qveq_trans(
                r2.vv(),
                qvsub(r1.vv(), self.solved.deltas.dt2.vv()),
                qvsub(qvsub(time.vv(), self.solved.deltas.dt1.vv()), self.solved.deltas.dt2.vv()),
            );
            lemma_qv_nonneg_congr(
                r2.vv(),
                qvsub(qvsub(time.vv(), self.solved.deltas.dt1.vv()), self.solved.deltas.dt2.vv()),
                disc.v(),
            );
        }
        if !ge2 {
            return Ok(Rat::from_int(0));
        }
        Ok(self.solved.decel)
    }

    /// Mirror of one row of [`Self::sample_profiles`]: the time
    /// `total * i / denom` and the three evaluator mirrors there.
    pub open spec fn spec_sample_row(self, denom: int, i: int) -> Result<
        (Quad, Quad, Quad, Rat),
        DomainError,
    > {
        match spec_ratio(i, denom) {
            None => Err(DomainError::NumericOverflow),
            Some(frac) => match spec_qscale(frac, self.sol().total) {
                None => Err(DomainError::NumericOverflow),
                Some(t) => match self.spec_position(t) {
                    Err(e) => Err(e),
                    Ok(p) => match self.spec_velocity(t) {
                        Err(e) => Err(e),
                        Ok(v) => match self.spec_acceleration(t) {
                            Err(e) => Err(e),
                            Ok(a) => Ok((t, p, v, a)),
                        },
                    },
                },
            },
        }
    }

    /// Mirror of the first `n` rows of [`Self::sample_profiles`]: the
    /// earliest failing row's error, or all `n` rows.
    pub open spec fn spec_sample_prefix(self, denom: int, n: nat) -> Result<
        Seq<(Quad, Quad, Quad, Rat)>,
        DomainError,
    >
        decreases n,
    {
        if n == 0 {
            Ok(Seq::empty())
        } else {
            match self.spec_sample_prefix(denom, (n - 1) as nat) {
                Err(e) => Err(e),
                Ok(rows) => match self.spec_sample_row(denom, n - 1) {
                    Err(e) => Err(e),
                    Ok(row) => Ok(rows.push(row)),
                },
            }
        }
    }

    /// Mirror of [`Self::sample_profiles`].
    pub open spec fn spec_sample(self, samples: u32) -> Result<
        Seq<(Quad, Quad, Quad, Rat)>,
        DomainError,
    > {
        let denom = if samples <= 1 {
            1int
        } else {
            (samples - 1) as int
        };
        self.spec_sample_prefix(denom, samples as nat)
    }

    /// Once a prefix fails, every longer prefix fails with the same error.
    proof fn lemma_sample_prefix_err(self, denom: int, i: nat, n: nat)
        requires
            i <= n,
            self.spec_sample_prefix(denom, i) is Err,
        ensures
            self.spec_sample_prefix(denom, n) == self.spec_sample_prefix(denom, i),
        decreases n,
    {
        if i < n {
            self.lemma_sample_prefix_err(denom, i, (n - 1) as nat);
        }
    }

    /// Sample the profile at `samples` evenly spaced times from zero to the
    /// total duration: row `i` holds the time `t_i = total * i / (samples - 1)`
    /// and the position, velocity and acceleration there (a single row at
    /// time zero when `samples <= 1`).  This is the data a plotting front
    /// end draws as curves.  The result is pinned to [`Self::spec_sample`],
    /// so it succeeds if and only if every row's exact computation stays in
    /// the representable range.
    pub fn sample_profiles(&self, samples: u32) -> (r: Result<
        Vec<(Quad, Quad, Quad, Rat)>,
        DomainError,
    >)
        requires
            self.valid(),
        ensures
            r matches Ok(rows) ==> self.spec_sample(samples) == Ok::<
                Seq<(Quad, Quad, Quad, Rat)>,
                DomainError,
            >(rows@),
            r matches Err(e) ==> self.spec_sample(samples) == Err::<
                Seq<(Quad, Quad, Quad, Rat)>,
                DomainError,
            >(e),
            r matches Ok(rows) ==> {
                &&& rows@.len() == samples as nat
                &&& forall|j: int|
                    0 <= j < rows@.len() ==> {
                        &&& qveq(
                            rows@[j].0.vv(),
                            qvscale(
                                (
                                    j,
                                    if samples <= 1 {
                                        1int
                                    } else {
                                        (samples - 1) as int
                                    },
                                ),
                                self.sol().total.vv(),
                            ),
                        )
                        &&& qveq(rows@[j].1.vv(), self.spec_position_v(rows@[j].0.vv()))
                        &&& qveq(rows@[j].2.vv(), self.spec_velocity_v(rows@[j].0.vv()))
                        &&& rows@[j].3 == self.spec_acceleration_r(rows@[j].0.vv())
                    }
            },
            r matches Err(e) ==> e == DomainError::NumericOverflow,
    {
        let denom: i64 = if samples <= 1 {
            1
        } else {
            (samples - 1) as i64
        };
        let total = self.solved.total;
        let mut rows: Vec<(Quad, Quad, Quad, Rat)> = Vec::new();
        let mut i: u32 = 0;
        while i < samples
            invariant
                self.valid(),
                total == self.sol().total,
                denom as int == (if samples <= 1 {
                    1int
                } else {
                    (samples - 1) as int
                }),
                1 <= denom,
                i <= samples,
                rows@.len() == i as nat,
                self.spec_sample_prefix(denom as int, i as nat) == Ok::<
                    Seq<(Quad, Quad, Quad, Rat)>,
                    DomainError,
                >(rows@),
                forall|j: int|
                    0 <= j < rows@.len() ==> {
                        &&& qveq(rows@[j].0.vv(), qvscale((j, denom as int), self.sol().total.vv()))
                        &&& qveq(rows@[j].1.vv(), self.spec_position_v(rows@[j].0.vv()))
                        &&& qveq(rows@[j].2.vv(), self.spec_velocity_v(rows@[j].0.vv()))
                        &&& rows@[j].3 == self.spec_acceleration_r(rows@[j].0.vv())
                    },
            decreases samples - i,
        {
            let frac = match Rat::ratio(i as i64, denom) {
                Some(f) => f,
                None => {
                    proof {
                        self.lemma_sample_prefix_err(denom as int, (i + 1) as nat, samples as nat);
                    }
                    return Err(DomainError::NumericOverflow);
                },
            };
            let t = match total.scale(frac) {
                Some(x) => x,
                None => {
                    proof {
                        self.lemma_sample_prefix_err(denom as int, (i + 1) as nat, samples as nat);
                    }
                    return Err(DomainError::NumericOverflow);
                },
            };
            let p = match self.position(t) {
                Ok(x) => x,
                Err(e) => {
                    proof {
                        self.lemma_sample_prefix_err(denom as int, (i + 1) as nat, samples as nat);
                    }
                    return Err(e);
                },
            };
            let v = match self.velocity(t) {
                Ok(x) => x,
                Err(e) => {
                    proof {
                        self.lemma_sample_prefix_err(denom as int, (i + 1) as nat, samples as nat);
                    }
                    return Err(e);
                },
            };
            let a = match self.acceleration(t) {
                Ok(x) => x,
                Err(e) => {
                    proof {
                        self.lemma_sample_prefix_err(denom as int, (i + 1) as nat, samples as nat);
                    }
                    return Err(e);
                },
            };
            proof {
                assert(self.spec_sample_row(denom as int, i as int) == Ok::<
                    (Quad, Quad, Quad, Rat),
                    DomainError,
                >((t, p, v, a)));
                assert(self.spec_sample_prefix(denom as int, (i + 1) as nat) == Ok::<
                    Seq<(Quad, Quad, Quad, Rat)>,
                    DomainError,
                >(rows@.push((t, p, v, a))));
                use_type_invariant(total.a);
                use_type_invariant(total.b);
                lemma_qvscale_congr(
                    frac.v(),
                    (i as int, denom as int),
                    total.vv(),
                    total.vv(),
                );
                lemma_qveq_trans(
                    t.vv(),
                    qvscale(frac.v(), total.vv()),
                    qvscale((i as int, denom as int), total.vv()),
                );
            }
            rows.push((t, p, v, a));
            i = i + 1;
        }
        Ok(rows)
    }

    /// Solve without building a segment: the phase deltas and the peak
    /// velocity, or the solver's error.
    pub fn compute_deltas_and_limits(
        start: Rat,
        end: Rat,
        start_velocity: Rat,
        end_velocity: Rat,
        limits: Limits,
    ) -> (r: Result<(Deltas, Quad), DomainError>)
        ensures
            r == (match spec_solve(start, end, start_velocity, end_velocity, limits) {
                Ok(sol) => Ok::<(Deltas, Quad), DomainError>((sol.deltas, sol.peak)),
                Err(e) => Err(e),
            }),
    {
        match solve(start, end, start_velocity, end_velocity, limits) {
            Ok(sol) => Ok((sol.deltas, sol.peak)),
            Err(e) => Err(e),
        }
    }
}

} // verus!
