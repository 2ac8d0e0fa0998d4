//! The profile solver and its validator.
//!
//! [`solve`] turns a move request (start and end positions, start and end
//! velocities, limits) into the three phase durations and displacements of a
//! trapezoidal velocity profile, falling back to a triangular ("wedge")
//! profile when the move is too short to reach the velocity limit.  Every
//! result is re-checked by [`validate_deltas`]: all durations must be
//! nonnegative and the displacements must sum exactly to `end - start`.
//!
//! The solver is deterministic: its result is pinned, representation and
//! all, to the spec-level mirror [`spec_solve`], so identical inputs give
//! identical output bit for bit.

use crate::quad::{
    lemma_qvadd_congr, lemma_qveq_trans, lemma_qvmul_congr, lemma_qvscale_congr, qv_dens_pos,
    qv_nonneg, qv_zero, qvadd, qveq, qvmul, qvscale, qvsub, qv_of_rat, spec_qadd, spec_qdiv_rat,
    spec_qeq_rat, spec_qmul, spec_qnonneg, spec_qrat, spec_qscale, spec_qsub, Quad, QuadV,
};
use crate::rational::{
    lemma_den_pos, lemma_vadd_congr, lemma_veq_trans, lemma_vmul_congr, spec_abs, spec_add,
    spec_div, spec_lt, spec_mul, spec_neg, spec_rat, spec_sub, vadd, veq, vlt, vmul, vneg, vsub,
    Rat,
};
use vstd::prelude::*;

verus! {

/// Magnitude limits of a move: both must be positive (and, being rationals,
/// are always finite).
#[derive(Clone, Copy, Debug, PartialEq, Eq, Structural)]
pub struct Limits {
    /// Acceleration magnitude limit.
    pub acceleration: Rat,
    /// Velocity magnitude limit.
    pub velocity: Rat,
}

impl Limits {
    /// Both limits are positive.
    pub open spec fn valid(self) -> bool {
        self.acceleration.num() > 0 && self.velocity.num() > 0
    }

    /// Executable validity check.
    pub fn is_valid(&self) -> (r: bool)
        ensures
            r == self.valid(),
    {
        self.acceleration.is_pos() && self.velocity.is_pos()
    }
}

/// The three phases of a profile.
#[derive(Clone, Copy, Debug, PartialEq, Eq, Structural)]
pub enum Phase {
    /// The first, constant-acceleration phase.
    Accelerate,
    /// The middle, constant-velocity phase.
    Cruise,
    /// The final, constant-deceleration phase.
    Decelerate,
}

/// Phase durations (`dt*`) and signed phase displacements (`dx*`) of a
/// solved profile.
#[derive(Clone, Copy, Debug, PartialEq, Eq, Structural)]
pub struct Deltas {
    /// Duration of the acceleration phase.
    pub dt1: Quad,
    /// Duration of the cruise phase.
    pub dt2: Quad,
    /// Duration of the deceleration phase.
    pub dt3: Quad,
    /// Displacement of the acceleration phase.
    pub dx1: Quad,
    /// Displacement of the cruise phase.
    pub dx2: Quad,
    /// Displacement of the deceleration phase.
    pub dx3: Quad,
}

/// Why a solve was rejected.
#[derive(Clone, Copy, Debug, PartialEq, Eq, Structural)]
pub enum DomainError {
    /// An acceleration or velocity limit is not positive.
    InvalidLimits,
    /// A phase duration came out negative, the wedge discriminant was
    /// negative so no peak velocity exists, or the peak velocity left the
    /// velocity limit; the inputs admit no profile.
    NegativeOrNonFiniteDuration {
        /// The phase whose value failed the check.
        phase: Phase,
        /// The offending value (the duration, the negative discriminant, or
        /// the out-of-range peak).
        value: Quad,
    },
    /// The solved displacements do not sum exactly to `end - start`.
    DisplacementMismatch {
        /// The requested total displacement.
        expected: Rat,
        /// The displacement the solved phases add up to.
        actual: Quad,
    },
    /// An exact intermediate value left the representable range; the
    /// counterpart of a non-finite intermediate in floating-point arithmetic.
    NumericOverflow,
}

/// Everything a successful solve produces and the evaluator reads.
#[derive(Clone, Copy, Debug, PartialEq, Eq, Structural)]
pub struct Solved {
    /// Phase durations and displacements.
    pub deltas: Deltas,
    /// The signed peak (cruise) velocity actually reached.
    pub peak: Quad,
    /// The discriminant `s` of the quadratic extension the values live in;
    /// zero for a full trapezoid.
    pub disc: Rat,
    /// Signed acceleration of the first phase.
    pub accel: Rat,
    /// Signed acceleration of the final phase.
    pub decel: Rat,
    /// The end velocity actually solved for: the requested one clamped to
    /// `[-velocity_limit, velocity_limit]`.
    pub end_velocity_clamped: Rat,
    /// Total duration, `dt1 + dt2 + dt3`.
    pub total: Quad,
}

/// The value of `x0 + v0 * t + (1/2) * acc * t^2` over rational pairs.
pub open spec fn v_so(t: (int, int), x0: (int, int), v0: (int, int), acc: (int, int)) -> (
    int,
    int,
) {
    vadd(x0, vadd(vmul(v0, t), vmul(vmul((1int, 2int), acc), vmul(t, t))))
}

/// The value of `x0 + v0 * t + (1/2) * acc * t^2` over quad values with
/// discriminant `s`.
pub open spec fn qv_so(t: QuadV, x0: QuadV, v0: QuadV, acc: (int, int), s: (int, int)) -> QuadV {
    qvadd(x0, qvadd(qvmul(v0, t, s), qvscale(vmul((1int, 2int), acc), qvmul(t, t, s))))
}

/// Mirror of [`second_order_rat`].
pub open spec fn spec_so_rat(t: Rat, x0: Rat, v0: Rat, acc: Rat) -> Option<Rat> {
    match spec_mul(v0, t) {
        Some(vt) => match spec_mul(t, t) {
            Some(tt) => match spec_mul(spec_rat(1, 2), acc) {
                Some(ha) => match spec_mul(ha, tt) {
                    Some(att) => match spec_add(vt, att) {
                        Some(sum) => spec_add(x0, sum),
                        None => None,
                    },
                    None => None,
                },
                None => None,
            },
            None => None,
        },
        None => None,
    }
}

/// Position after uniform acceleration, over rationals:
/// `x0 + v0 * t + (1/2) * acc * t^2`; `None` exactly on range overflow.
pub fn second_order_rat(time: Rat, initial_position: Rat, initial_velocity: Rat, acceleration: Rat) -> (r:
    Option<Rat>)
    ensures
        r == spec_so_rat(time, initial_position, initial_velocity, acceleration),
        r matches Some(c) ==> veq(
            c.v(),
            v_so(time.v(), initial_position.v(), initial_velocity.v(), acceleration.v()),
        ) && 1 <= c.den(),
{
    proof {
        use_type_invariant(time);
        use_type_invariant(initial_position);
        use_type_invariant(initial_velocity);
        use_type_invariant(acceleration);
    }
    let vt = match initial_velocity.checked_mul(time) {
        Some(x) => x,
        None => return None,
    };
    let tt = match time.checked_mul(time) {
        Some(x) => x,
        None => return None,
    };
    let ha = match Rat::half().checked_mul(acceleration) {
        Some(x) => x,
        None => return None,
    };
    let att = match ha.checked_mul(tt) {
        Some(x) => x,
        None => return None,
    };
    let sum = match vt.checked_add(att) {
        Some(x) => x,
        None => return None,
    };
    let res = match initial_position.checked_add(sum) {
        Some(x) => x,
        None => return None,
    };
    proof {
        let tv = time.v();
        let xv = initial_position.v();
        let vv = initial_velocity.v();
        let av = acceleration.v();
        lemma_den_pos(vv.1, tv.1);
        lemma_den_pos(tv.1, tv.1);
        lemma_den_pos(2, av.1);
        lemma_den_pos(2 * av.1, tv.1 * tv.1);
        lemma_den_pos(vv.1 * tv.1, 2 * av.1 * (tv.1 * tv.1));
        lemma_den_pos(ha.den(), tt.den());
        lemma_den_pos(vt.den(), att.den());
        lemma_den_pos(xv.1, sum.den());
        lemma_vmul_congr(ha.v(), vmul((1int, 2int), av), tt.v(), vmul(tv, tv));
        lemma_veq_trans(att.v(), vmul(ha.v(), tt.v()), vmul(vmul((1int, 2int), av), vmul(tv, tv)));
        lemma_vadd_congr(vt.v(), vmul(vv, tv), att.v(), vmul(vmul((1int, 2int), av), vmul(tv, tv)));
        lemma_veq_trans(
            sum.v(),
            vadd(vt.v(), att.v()),
            vadd(vmul(vv, tv), vmul(vmul((1int, 2int), av), vmul(tv, tv))),
        );
        lemma_vadd_congr(
            xv,
            xv,
            sum.v(),
            vadd(vmul(vv, tv), vmul(vmul((1int, 2int), av), vmul(tv, tv))),
        );
        lemma_veq_trans(
            res.v(),
            vadd(xv, sum.v()),
            vadd(xv, vadd(vmul(vv, tv), vmul(vmul((1int, 2int), av), vmul(tv, tv)))),
        );
    }
    Some(res)
}

/// Mirror of [`second_order`].
pub open spec fn spec_so(t: Quad, x0: Quad, v0: Quad, acc: Rat, disc: Rat) -> Option<Quad> {
    match spec_qmul(v0, t, disc) {
        Some(vt) => match spec_qmul(t, t, disc) {
            Some(tt) => match spec_mul(spec_rat(1, 2), acc) {
                Some(ha) => match spec_qscale(ha, tt) {
                    Some(att) => match spec_qadd(vt, att) {
                        Some(sum) => spec_qadd(x0, sum),
                        None => None,
                    },
                    None => None,
                },
                None => None,
            },
            None => None,
        },
        None => None,
    }
}

/// Position after uniform acceleration, over quad values with discriminant
/// `disc`: `x0 + v0 * t + (1/2) * acc * t^2`; `None` exactly on range
/// overflow.
pub fn second_order(time: Quad, initial_position: Quad, initial_velocity: Quad, acceleration: Rat, disc: Rat) -> (r: Option<Quad>)
    ensures
        r == spec_so(time, initial_position, initial_velocity, acceleration, disc),
        r matches Some(c) ==> qveq(
            c.vv(),
            qv_so(
                time.vv(),
                initial_position.vv(),
                initial_velocity.vv(),
                acceleration.v(),
                disc.v(),
            ),
        ) && c.wf_dens(),
{
    proof {
        use_type_invariant(time.a);
        use_type_invariant(time.b);
        use_type_invariant(initial_position.a);
        use_type_invariant(initial_position.b);
        use_type_invariant(initial_velocity.a);
        use_type_invariant(initial_velocity.b);
        use_type_invariant(acceleration);
        use_type_invariant(disc);
    }
    let vt = match initial_velocity.qmul(time, disc) {
        Some(x) => x,
        None => return None,
    };
    let tt = match time.qmul(time, disc) {
        Some(x) => x,
        None => return None,
    };
    let ha = match Rat::half().checked_mul(acceleration) {
        Some(x) => x,
        None => return None,
    };
    let att = match tt.scale(ha) {
        Some(x) => x,
        None => return None,
    };
    let sum = match vt.qadd(att) {
        Some(x) => x,
        None => return None,
    };
    let res = match initial_position.qadd(sum) {
        Some(x) => x,
        None => return None,
    };
    proof {
        let tv = time.vv();
        let xv = initial_position.vv();
        let vv = initial_velocity.vv();
        let av = acceleration.v();
        let sv = disc.v();
        lemma_den_pos(2, av.1);
        lemma_qvmul_congr(tv, tv, tv, tv, sv);
        lemma_qvscale_congr(ha.v(), vmul((1int, 2int), av), tt.vv(), qvmul(tv, tv, sv));
        lemma_qveq_trans(
            att.vv(),
            qvscale(ha.v(), tt.vv()),
            qvscale(vmul((1int, 2int), av), qvmul(tv, tv, sv)),
        );
        lemma_qvmul_congr(vv, vv, tv, tv, sv);
        lemma_qvadd_congr(
            vt.vv(),
            qvmul(vv, tv, sv),
            att.vv(),
            qvscale(vmul((1int, 2int), av), qvmul(tv, tv, sv)),
        );
        lemma_qveq_trans(
            sum.vv(),
            qvadd(vt.vv(), att.vv()),
            qvadd(qvmul(vv, tv, sv), qvscale(vmul((1int, 2int), av), qvmul(tv, tv, sv))),
        );
        lemma_qvadd_congr(
            xv,
            xv,
            sum.vv(),
            qvadd(qvmul(vv, tv, sv), qvscale(vmul((1int, 2int), av), qvmul(tv, tv, sv))),
        );
        lemma_qveq_trans(
            res.vv(),
            qvadd(xv, sum.vv()),
            qvadd(xv, qvadd(qvmul(vv, tv, sv), qvscale(vmul((1int, 2int), av), qvmul(tv, tv, sv)))),
        );
    }
    Some(res)
}

/// Mirror of [`apply_sign`].
pub open spec fn spec_apply_sign(negate: bool, r: Rat) -> Rat {
    if negate {
        spec_neg(r)
    } else {
        r
    }
}

/// `r` or `-r` according to a direction flag; never fails.
pub fn apply_sign(negate: bool, r: Rat) -> (out: Rat)
    ensures
        out == spec_apply_sign(negate, r),
        out.num() == if negate {
            -r.num()
        } else {
            r.num()
        },
        out.den() == r.den(),
{
    if negate {
        r.neg()
    } else {
        r
    }
}

/// Mirror of [`position_at_full_stop`].
pub open spec fn spec_stop_position(start: Rat, start_velocity: Rat, limits: Limits) -> Option<
    Rat,
> {
    match spec_div(spec_abs(start_velocity), limits.acceleration) {
        Some(t) => spec_so_rat(
            t,
            start,
            start_velocity,
            spec_apply_sign(start_velocity.num() >= 0, limits.acceleration),
        ),
        None => None,
    }
}

/// The position reached when decelerating from `start_velocity` to zero at
/// the acceleration limit: the time to stop is `|v| / a`, and the
/// deceleration opposes the motion.  With `start_velocity == 0` this is
/// exactly `start`.  `None` exactly when the acceleration limit is zero or
/// the range overflows.
pub fn position_at_full_stop(start: Rat, start_velocity: Rat, limits: &Limits) -> (r: Option<Rat>)
    ensures
        r == spec_stop_position(start, start_velocity, *limits),
{
    let t = match start_velocity.abs().checked_div(limits.acceleration) {
        Some(x) => x,
        None => return None,
    };
    let braking = apply_sign(start_velocity.is_nonneg(), limits.acceleration);
    second_order_rat(t, start, start_velocity, braking)
}

/// Mirror of [`clamp_end_velocity`].
pub open spec fn spec_clamp(ve: Rat, vmax: Rat) -> Option<Rat> {
    match spec_lt(vmax, ve) {
        Some(true) => Some(vmax),
        Some(false) => match spec_lt(ve, spec_neg(vmax)) {
            Some(true) => Some(spec_neg(vmax)),
            Some(false) => Some(ve),
            None => None,
        },
        None => None,
    }
}

/// The requested end velocity clamped to `[-vmax, vmax]`; `None` exactly on
/// range overflow.
pub fn clamp_end_velocity(ve: Rat, vmax: Rat) -> (r: Option<Rat>)
    requires
        vmax.num() > 0,
    ensures
        r == spec_clamp(ve, vmax),
        r matches Some(c) ==> {
            &&& c == (if vlt(vmax.v(), ve.v()) {
                vmax
            } else if vlt(ve.v(), vneg(vmax.v())) {
                spec_neg(vmax)
            } else {
                ve
            })
            &&& crate::rational::vle(c.v(), vmax.v())
            &&& crate::rational::vle(vneg(vmax.v()), c.v())
            &&& 1 <= c.den()
        },
{
    proof {
        use_type_invariant(ve);
        use_type_invariant(vmax);
    }
    let nvmax = vmax.neg();
    let over = match vmax.lt(ve) {
        Some(b) => b,
        None => return None,
    };
    if over {
        proof {
            lemma_clamp_bounds(vmax.v());
        }
        return Some(vmax);
    }
    let under = match ve.lt(nvmax) {
        Some(b) => b,
        None => return None,
    };
    if under {
        proof {
            lemma_clamp_bounds(vmax.v());
        }
        Some(nvmax)
    } else {
        proof {
            lemma_clamp_bounds(vmax.v());
        }
        Some(ve)
    }
}

/// `-v <= v` and both bounds hold of `v` and `-v` when `v > 0`.
proof fn lemma_clamp_bounds(v: (int, int))
    requires
        v.0 > 0,
        v.1 >= 1,
    ensures
        crate::rational::vle(v, v),
        crate::rational::vle(vneg(v), v),
        crate::rational::vle(vneg(v), vneg(v)),
{
    assert((-v.0) * v.1 <= v.0 * v.1) by (nonlinear_arith)
        requires
            v.0 > 0,
            v.1 >= 1,
    ;
}

/// Scaling an embedded rational that satisfies `k * t == u` (as values)
/// gives the embedding of `u`.
proof fn lemma_lift_scale(k: (int, int), t: (int, int), u: (int, int))
    requires
        veq(vmul(k, t), u),
        k.1 >= 1,
        t.1 >= 1,
        u.1 >= 1,
    ensures
        qveq(qvscale(k, qv_of_rat(t)), qv_of_rat(u)),
{
    crate::rational::lemma_mul_units(k.0);
    crate::rational::lemma_mul_units(k.1);
    crate::rational::lemma_zero_num((k.0 * 0, k.1 * 1));
}

/// The second-order formula on embedded rationals is the embedding of the
/// rational second-order formula.
proof fn lemma_qv_so_embed(t: (int, int), x0: (int, int), v0: (int, int), acc: (int, int), s: (
    int,
    int,
))
    requires
        t.1 >= 1,
        x0.1 >= 1,
        v0.1 >= 1,
        acc.1 >= 1,
        s.1 >= 1,
    ensures
        qveq(
            qv_so(qv_of_rat(t), qv_of_rat(x0), qv_of_rat(v0), acc, s),
            qv_of_rat(v_so(t, x0, v0, acc)),
        ),
        qv_dens_pos(qv_so(qv_of_rat(t), qv_of_rat(x0), qv_of_rat(v0), acc, s)),
        qv_dens_pos(qv_of_rat(v_so(t, x0, v0, acc))),
{
    let h = vmul((1int, 2int), acc);
    lemma_den_pos(2, acc.1);
    crate::quad::lemma_embed_mul(v0, t, s);
    crate::quad::lemma_embed_mul(t, t, s);
    lemma_den_pos(v0.1, t.1);
    lemma_den_pos(t.1, t.1);
    lemma_den_pos(h.1, t.1 * t.1);
    crate::quad::lemma_qvscale_congr(h, h, qvmul(qv_of_rat(t), qv_of_rat(t), s), qv_of_rat(vmul(t, t)));
    crate::quad::lemma_embed_scale(h, vmul(t, t));
    crate::quad::lemma_qveq_trans(
        qvscale(h, qvmul(qv_of_rat(t), qv_of_rat(t), s)),
        qvscale(h, qv_of_rat(vmul(t, t))),
        qv_of_rat(vmul(h, vmul(t, t))),
    );
    lemma_qvadd_congr(
        qvmul(qv_of_rat(v0), qv_of_rat(t), s),
        qv_of_rat(vmul(v0, t)),
        qvscale(h, qvmul(qv_of_rat(t), qv_of_rat(t), s)),
        qv_of_rat(vmul(h, vmul(t, t))),
    );
    assert(qvadd(qv_of_rat(vmul(v0, t)), qv_of_rat(vmul(h, vmul(t, t)))) == qv_of_rat(
        vadd(vmul(v0, t), vmul(h, vmul(t, t))),
    ));
    lemma_den_pos(v0.1 * t.1, h.1 * (t.1 * t.1));
    lemma_qvadd_congr(
        qv_of_rat(x0),
        qv_of_rat(x0),
        qvadd(
            qvmul(qv_of_rat(v0), qv_of_rat(t), s),
            qvscale(h, qvmul(qv_of_rat(t), qv_of_rat(t), s)),
        ),
        qv_of_rat(vadd(vmul(v0, t), vmul(h, vmul(t, t)))),
    );
    assert(qvadd(qv_of_rat(x0), qv_of_rat(vadd(vmul(v0, t), vmul(h, vmul(t, t))))) == qv_of_rat(
        v_so(t, x0, v0, acc),
    ));
    lemma_den_pos(x0.1, v0.1 * t.1 * (h.1 * (t.1 * t.1)));
}

/// The second-order formula respects [`qveq`] in its time, position and
/// velocity arguments.
pub proof fn lemma_qv_so_congr(
    t: QuadV,
    t2: QuadV,
    x0: QuadV,
    x02: QuadV,
    v0: QuadV,
    v02: QuadV,
    acc: (int, int),
    s: (int, int),
)
    requires
        qveq(t, t2),
        qveq(x0, x02),
        qveq(v0, v02),
        qv_dens_pos(t),
        qv_dens_pos(t2),
        qv_dens_pos(x0),
        qv_dens_pos(x02),
        qv_dens_pos(v0),
        qv_dens_pos(v02),
        acc.1 >= 1,
        s.1 >= 1,
    ensures
        qveq(qv_so(t, x0, v0, acc, s), qv_so(t2, x02, v02, acc, s)),
        qv_dens_pos(qv_so(t, x0, v0, acc, s)),
        qv_dens_pos(qv_so(t2, x02, v02, acc, s)),
{
    let h = vmul((1int, 2int), acc);
    lemma_den_pos(2, acc.1);
    lemma_qvmul_congr(v0, v02, t, t2, s);
    lemma_qvmul_congr(t, t2, t, t2, s);
    lemma_qvscale_congr(h, h, qvmul(t, t, s), qvmul(t2, t2, s));
    lemma_qvadd_congr(
        qvmul(v0, t, s),
        qvmul(v02, t2, s),
        qvscale(h, qvmul(t, t, s)),
        qvscale(h, qvmul(t2, t2, s)),
    );
    lemma_qvadd_congr(
        x0,
        x02,
        qvadd(qvmul(v0, t, s), qvscale(h, qvmul(t, t, s))),
        qvadd(qvmul(v02, t2, s), qvscale(h, qvmul(t2, t2, s))),
    );
}

/// Direction signs, signed accelerations and the clamped end velocity of a
/// move, computed before any profile is tried.
#[derive(Clone, Copy, Debug, PartialEq, Eq, Structural)]
pub struct Prep {
    /// Whether net travel is in the negative direction.
    pub dneg: bool,
    /// Whether the entry speed exceeds the velocity limit in the direction
    /// of travel, so the first phase must decelerate.
    pub flip: bool,
    /// Sign flag of the first phase's acceleration.
    pub aneg: bool,
    /// Signed acceleration of the first phase.
    pub alpha: Rat,
    /// Signed acceleration of the final phase.
    pub delta: Rat,
    /// Signed trial peak velocity (the velocity limit, in the direction of
    /// travel).
    pub vpt: Rat,
    /// The end velocity clamped to the velocity limit.
    pub vec: Rat,
}

/// Mirror of [`prepare`].
pub open spec fn spec_prep(start: Rat, end: Rat, vs: Rat, ve: Rat, lim: Limits) -> Option<Prep> {
    match spec_stop_position(start, vs, lim) {
        None => None,
        Some(xstop) => match spec_sub(end, xstop) {
            None => None,
            Some(dvec) => {
                let dneg = dvec.num() < 0;
                match spec_clamp(ve, lim.velocity) {
                    None => None,
                    Some(vec) => {
                        let vsd = spec_apply_sign(dneg, vs);
                        match spec_lt(lim.velocity, vsd) {
                            None => None,
                            Some(flip) => {
                                let aneg = if flip {
                                    !dneg
                                } else {
                                    dneg
                                };
                                Some(
                                    Prep {
                                        dneg,
                                        flip,
                                        aneg,
                                        alpha: spec_apply_sign(aneg, lim.acceleration),
                                        delta: spec_apply_sign(!dneg, lim.acceleration),
                                        vpt: spec_apply_sign(dneg, lim.velocity),
                                        vec,
                                    },
                                )
                            },
                        }
                    },
                }
            },
        },
    }
}

/// Determine the direction of travel from the stop position, the phase
/// signs (flipped on overspeed entry), the signed trial peak velocity and
/// the clamped end velocity; `None` exactly on range overflow.
pub fn prepare(start: Rat, end: Rat, start_velocity: Rat, end_velocity: Rat, limits: Limits) -> (r:
    Option<Prep>)
    requires
        limits.valid(),
    ensures
        r == spec_prep(start, end, start_velocity, end_velocity, limits),
        r matches Some(p) ==> {
            &&& (p.alpha == limits.acceleration || p.alpha == spec_neg(limits.acceleration))
            &&& (p.delta == limits.acceleration || p.delta == spec_neg(limits.acceleration))
            &&& p.alpha.num() != 0
            &&& p.delta.num() != 0
            &&& p.vpt.num() != 0
            &&& 1 <= p.alpha.den() && 1 <= p.delta.den() && 1 <= p.vpt.den() && 1 <= p.vec.den()
            &&& crate::rational::vle(p.vec.v(), limits.velocity.v())
            &&& crate::rational::vle(vneg(limits.velocity.v()), p.vec.v())
            &&& (veq(p.vec.v(), end_velocity.v()) || p.vec == limits.velocity || p.vec == spec_neg(
                limits.velocity,
            ))
        },
{
    proof {
        use_type_invariant(limits.acceleration);
        use_type_invariant(limits.velocity);
        use_type_invariant(end_velocity);
    }
    let xstop = match position_at_full_stop(start, start_velocity, &limits) {
        Some(x) => x,
        None => return None,
    };
    let dvec = match end.checked_sub(xstop) {
        Some(x) => x,
        None => return None,
    };
    let dneg: bool = !dvec.is_nonneg();
    let vec = match clamp_end_velocity(end_velocity, limits.velocity) {
        Some(x) => x,
        None => return None,
    };
    let vsd = apply_sign(dneg, start_velocity);
    let flip = match limits.velocity.lt(vsd) {
        Some(b) => b,
        None => return None,
    };
    let aneg: bool = if flip {
        !dneg
    } else {
        dneg
    };
    let alpha = apply_sign(aneg, limits.acceleration);
    let delta = apply_sign(!dneg, limits.acceleration);
    let vpt = apply_sign(dneg, limits.velocity);
    Some(Prep { dneg, flip, aneg, alpha, delta, vpt, vec })
}

/// The full-trapezoid trial: phase durations and displacements computed as
/// if the velocity limit were reached.
#[derive(Clone, Copy, Debug, PartialEq, Eq, Structural)]
pub struct Trial {
    /// Trial acceleration-phase duration.
    pub t1: Rat,
    /// Trial deceleration-phase duration.
    pub t3: Rat,
    /// Trial acceleration-phase displacement.
    pub x1: Rat,
    /// Trial deceleration-phase displacement.
    pub x3: Rat,
    /// Trial cruise duration; negative exactly when the move is too short
    /// for a full trapezoid.
    pub t2: Rat,
}

/// Mirror of [`trial`].
pub open spec fn spec_trial(p: Prep, start: Rat, end: Rat, vs: Rat) -> Option<Trial> {
    match spec_sub(p.vpt, vs) {
        None => None,
        Some(u1) => match spec_div(u1, p.alpha) {
            None => None,
            Some(t1) => match spec_sub(p.vec, p.vpt) {
                None => None,
                Some(u3) => match spec_div(u3, p.delta) {
                    None => None,
                    Some(t3) => match spec_so_rat(t1, spec_rat(0, 1), vs, p.alpha) {
                        None => None,
                        Some(x1) => match spec_so_rat(t3, spec_rat(0, 1), p.vpt, p.delta) {
                            None => None,
                            Some(x3) => match spec_sub(end, start) {
                                None => None,
                                Some(dx) => match spec_sub(dx, x1) {
                                    None => None,
                                    Some(m1) => match spec_sub(m1, x3) {
                                        None => None,
                                        Some(m2) => match spec_div(m2, p.vpt) {
                                            None => None,
                                            Some(t2) => Some(Trial { t1, t3, x1, x3, t2 }),
                                        },
                                    },
                                },
                            },
                        },
                    },
                },
            },
        },
    }
}

/// Compute the full-trapezoid trial: `t1` and `t3` from the velocity
/// differences over the signed accelerations, `x1` and `x3` from the
/// second-order equation, and the cruise duration `t2` from the remaining
/// displacement over the peak velocity; `None` exactly on range overflow.
pub fn trial(p: Prep, start: Rat, end: Rat, start_velocity: Rat) -> (r: Option<Trial>)
    ensures
        r == spec_trial(p, start, end, start_velocity),
        r matches Some(tr) ==> {
            &&& veq(vmul(p.alpha.v(), tr.t1.v()), vsub(p.vpt.v(), start_velocity.v()))
            &&& veq(vmul(p.delta.v(), tr.t3.v()), vsub(p.vec.v(), p.vpt.v()))
            &&& veq(tr.x1.v(), v_so(tr.t1.v(), (0int, 1int), start_velocity.v(), p.alpha.v()))
            &&& veq(tr.x3.v(), v_so(tr.t3.v(), (0int, 1int), p.vpt.v(), p.delta.v()))
            &&& 1 <= tr.t1.den() && 1 <= tr.t3.den() && 1 <= tr.x1.den() && 1 <= tr.x3.den() && 1
                <= tr.t2.den()
        },
{
    let zero = Rat::from_int(0);
    let u1 = match p.vpt.checked_sub(start_velocity) {
        Some(x) => x,
        None => return None,
    };
    let t1 = match u1.checked_div(p.alpha) {
        Some(x) => x,
        None => return None,
    };
    let u3 = match p.vec.checked_sub(p.vpt) {
        Some(x) => x,
        None => return None,
    };
    let t3 = match u3.checked_div(p.delta) {
        Some(x) => x,
        None => return None,
    };
    let x1 = match second_order_rat(t1, zero, start_velocity, p.alpha) {
        Some(x) => x,
        None => return None,
    };
    let x3 = match second_order_rat(t3, zero, p.vpt, p.delta) {
        Some(x) => x,
        None => return None,
    };
    let dx = match end.checked_sub(start) {
        Some(x) => x,
        None => return None,
    };
    let m1 = match dx.checked_sub(x1) {
        Some(x) => x,
        None => return None,
    };
    let m2 = match m1.checked_sub(x3) {
        Some(x) => x,
        None => return None,
    };
    let t2 = match m2.checked_div(p.vpt) {
        Some(x) => x,
        None => return None,
    };
    proof {
        crate::rational::lemma_vdiv_cancel(t1.v(), u1.v(), p.alpha.v());
        lemma_veq_trans(vmul(p.alpha.v(), t1.v()), u1.v(), vsub(p.vpt.v(), start_velocity.v()));
        crate::rational::lemma_vdiv_cancel(t3.v(), u3.v(), p.delta.v());
        lemma_veq_trans(vmul(p.delta.v(), t3.v()), u3.v(), vsub(p.vec.v(), p.vpt.v()));
    }
    Some(Trial { t1, t3, x1, x3, t2 })
}

/// Mirror of [`validate_deltas`].
pub open spec fn spec_validate(d: Deltas, start: Rat, end: Rat, disc: Rat) -> Result<
    (),
    DomainError,
> {
    match spec_qnonneg(d.dt1, disc) {
        None => Err(DomainError::NumericOverflow),
        Some(false) => Err(
            DomainError::NegativeOrNonFiniteDuration { phase: Phase::Accelerate, value: d.dt1 },
        ),
        Some(true) => match spec_qnonneg(d.dt2, disc) {
            None => Err(DomainError::NumericOverflow),
            Some(false) => Err(
                DomainError::NegativeOrNonFiniteDuration { phase: Phase::Cruise, value: d.dt2 },
            ),
            Some(true) => match spec_qnonneg(d.dt3, disc) {
                None => Err(DomainError::NumericOverflow),
                Some(false) => Err(
                    DomainError::NegativeOrNonFiniteDuration {
                        phase: Phase::Decelerate,
                        value: d.dt3,
                    },
                ),
                Some(true) => match spec_sub(end, start) {
                    None => Err(DomainError::NumericOverflow),
                    Some(dx) => match spec_qadd(d.dx1, d.dx2) {
                        None => Err(DomainError::NumericOverflow),
                        Some(s12) => match spec_qadd(s12, d.dx3) {
                            None => Err(DomainError::NumericOverflow),
                            Some(sum) => match spec_qeq_rat(sum, dx) {
                                None => Err(DomainError::NumericOverflow),
                                Some(false) => Err(
                                    DomainError::DisplacementMismatch {
                                        expected: dx,
                                        actual: sum,
                                    },
                                ),
                                Some(true) => Ok(()),
                            },
                        },
                    },
                },
            },
        },
    }
}

/// The consistency conditions [`validate_deltas`] establishes: every phase
/// duration is nonnegative, and the phase displacements sum exactly to
/// `end - start`.
pub open spec fn validated(d: Deltas, start: Rat, end: Rat, disc: Rat) -> bool {
    &&& qv_nonneg(d.dt1.vv(), disc.v())
    &&& qv_nonneg(d.dt2.vv(), disc.v())
    &&& qv_nonneg(d.dt3.vv(), disc.v())
    &&& qveq(
        qvadd(qvadd(d.dx1.vv(), d.dx2.vv()), d.dx3.vv()),
        qv_of_rat(vsub(end.v(), start.v())),
    )
}

/// Check a solved profile: all three durations nonnegative (else
/// `NegativeOrNonFiniteDuration` naming the phase), and the displacements
/// summing exactly to `end - start` (else `DisplacementMismatch`).
/// Exact arithmetic admits an exact check where floating-point code would
/// compare within a tolerance of a few ulps.
pub fn validate_deltas(deltas: &Deltas, start: Rat, end: Rat, disc: Rat) -> (r: Result<
    (),
    DomainError,
>)
    ensures
        r == spec_validate(*deltas, start, end, disc),
        r is Ok ==> validated(*deltas, start, end, disc),
        r matches Err(e) ==> !(e is InvalidLimits),
{
    proof {
        use_type_invariant(start);
        use_type_invariant(end);
    }
    let n1 = match deltas.dt1.nonneg(disc) {
        Some(b) => b,
        None => return Err(DomainError::NumericOverflow),
    };
    if !n1 {
        return Err(
            DomainError::NegativeOrNonFiniteDuration {
                phase: Phase::Accelerate,
                value: deltas.dt1,
            },
        );
    }
    let n2 = match deltas.dt2.nonneg(disc) {
        Some(b) => b,
        None => return Err(DomainError::NumericOverflow),
    };
    if !n2 {
        return Err(
            DomainError::NegativeOrNonFiniteDuration { phase: Phase::Cruise, value: deltas.dt2 },
        );
    }
    let n3 = match deltas.dt3.nonneg(disc) {
        Some(b) => b,
        None => return Err(DomainError::NumericOverflow),
    };
    if !n3 {
        return Err(
            DomainError::NegativeOrNonFiniteDuration {
                phase: Phase::Decelerate,
                value: deltas.dt3,
            },
        );
    }
    let dx = match end.checked_sub(start) {
        Some(x) => x,
        None => return Err(DomainError::NumericOverflow),
    };
    let s12 = match deltas.dx1.qadd(deltas.dx2) {
        Some(x) => x,
        None => return Err(DomainError::NumericOverflow),
    };
    let sum = match s12.qadd(deltas.dx3) {
        Some(x) => x,
        None => return Err(DomainError::NumericOverflow),
    };
    let good = match sum.eq_rat(dx) {
        Some(b) => b,
        None => return Err(DomainError::NumericOverflow),
    };
    if !good {
        return Err(DomainError::DisplacementMismatch { expected: dx, actual: sum });
    }
    proof {
        use_type_invariant(sum.a);
        use_type_invariant(sum.b);
        use_type_invariant(dx);
        use_type_invariant(deltas.dx1.a);
        use_type_invariant(deltas.dx1.b);
        use_type_invariant(deltas.dx2.a);
        use_type_invariant(deltas.dx2.b);
        use_type_invariant(deltas.dx3.a);
        use_type_invariant(deltas.dx3.b);
        lemma_den_pos(deltas.dx1.a.den(), deltas.dx2.a.den());
        lemma_den_pos(deltas.dx1.b.den(), deltas.dx2.b.den());
        lemma_qvadd_congr(
            s12.vv(),
            qvadd(deltas.dx1.vv(), deltas.dx2.vv()),
            deltas.dx3.vv(),
            deltas.dx3.vv(),
        );
        lemma_qveq_trans(
            sum.vv(),
            qvadd(s12.vv(), deltas.dx3.vv()),
            qvadd(qvadd(deltas.dx1.vv(), deltas.dx2.vv()), deltas.dx3.vv()),
        );
        lemma_veq_trans(sum.a.v(), dx.v(), vsub(end.v(), start.v()));
        crate::rational::lemma_zero_num(sum.b.v());
        lemma_qveq_trans(
            qvadd(qvadd(deltas.dx1.vv(), deltas.dx2.vv()), deltas.dx3.vv()),
            sum.vv(),
            qv_of_rat(vsub(end.v(), start.v())),
        );
    }
    Ok(())
}

/// Mirror of [`wedge`].
pub open spec fn spec_wedge(p: Prep, start: Rat, end: Rat, vs: Rat) -> Result<
    (Deltas, Quad, Rat),
    DomainError,
> {
    match spec_sub(end, start) {
        None => Err(DomainError::NumericOverflow),
        Some(dx) => match spec_sub(vs, p.vec) {
            None => Err(DomainError::NumericOverflow),
            Some(w1) => match spec_mul(w1, w1) {
                None => Err(DomainError::NumericOverflow),
                Some(w2) => match spec_mul(spec_rat(1, 2), w2) {
                    None => Err(DomainError::NumericOverflow),
                    Some(w3) => match spec_mul(p.alpha, dx) {
                        None => Err(DomainError::NumericOverflow),
                        Some(w4) => match spec_add(w4, w3) {
                            None => Err(DomainError::NumericOverflow),
                            Some(sdisc) => {
                                if sdisc.num() < 0 {
                                    Err(
                                        DomainError::NegativeOrNonFiniteDuration {
                                            phase: Phase::Accelerate,
                                            value: spec_qrat(sdisc),
                                        },
                                    )
                                } else {
                                    let vp = Quad {
                                        a: spec_rat(0, 1),
                                        b: spec_apply_sign(p.aneg, spec_rat(1, 1)),
                                    };
                                    let zq = spec_qrat(spec_rat(0, 1));
                                    match spec_qsub(vp, spec_qrat(vs)) {
                                        None => Err(DomainError::NumericOverflow),
                                        Some(u1) => match spec_qdiv_rat(u1, p.alpha) {
                                            None => Err(DomainError::NumericOverflow),
                                            Some(t1) => match spec_qsub(spec_qrat(p.vec), vp) {
                                                None => Err(DomainError::NumericOverflow),
                                                Some(u3) => match spec_qdiv_rat(u3, p.delta) {
                                                    None => Err(DomainError::NumericOverflow),
                                                    Some(t3) => match spec_so(
                                                        t1,
                                                        zq,
                                                        spec_qrat(vs),
                                                        p.alpha,
                                                        sdisc,
                                                    ) {
                                                        None => Err(DomainError::NumericOverflow),
                                                        Some(x1) => match spec_so(
                                                            t3,
                                                            zq,
                                                            vp,
                                                            p.delta,
                                                            sdisc,
                                                        ) {
                                                            None => Err(
                                                                DomainError::NumericOverflow,
                                                            ),
                                                            Some(x3) => Ok(
                                                                (
                                                                    Deltas {
                                                                        dt1: t1,
                                                                        dt2: zq,
                                                                        dt3: t3,
                                                                        dx1: x1,
                                                                        dx2: zq,
                                                                        dx3: x3,
                                                                    },
                                                                    vp,
                                                                    sdisc,
                                                                ),
                                                            ),
                                                        },
                                                    },
                                                },
                                            },
                                        },
                                    }
                                }
                            },
                        },
                    },
                },
            },
        },
    }
}

/// Solve the triangular ("wedge") profile taken when the trapezoid trial's
/// cruise duration is negative: the peak velocity becomes
/// `sqrt(accel * (end - start) + (1/2) * (vs - ve)^2)` signed by the
/// acceleration-phase sign, the cruise phase is empty, and the outer phases
/// are recomputed against that peak.  The durations and displacements then
/// live in the quadratic extension by that square root.
pub fn wedge(p: Prep, start: Rat, end: Rat, start_velocity: Rat) -> (r: Result<
    (Deltas, Quad, Rat),
    DomainError,
>)
    ensures
        r == spec_wedge(p, start, end, start_velocity),
        r matches Err(e) ==> !(e is InvalidLimits) && !(e is DisplacementMismatch),
        r matches Ok(out) ==> wedge_facts(p, start_velocity, out.0, out.1, out.2),
{
    proof {
        use_type_invariant(start_velocity);
        use_type_invariant(p.alpha);
        use_type_invariant(p.delta);
        use_type_invariant(p.vec);
    }
    let dx = match end.checked_sub(start) {
        Some(x) => x,
        None => return Err(DomainError::NumericOverflow),
    };
    let w1 = match start_velocity.checked_sub(p.vec) {
        Some(x) => x,
        None => return Err(DomainError::NumericOverflow),
    };
    let w2 = match w1.checked_mul(w1) {
        Some(x) => x,
        None => return Err(DomainError::NumericOverflow),
    };
    let w3 = match Rat::half().checked_mul(w2) {
        Some(x) => x,
        None => return Err(DomainError::NumericOverflow),
    };
    let w4 = match p.alpha.checked_mul(dx) {
        Some(x) => x,
        None => return Err(DomainError::NumericOverflow),
    };
    let sdisc = match w4.checked_add(w3) {
        Some(x) => x,
        None => return Err(DomainError::NumericOverflow),
    };
    if !sdisc.is_nonneg() {
        return Err(
            DomainError::NegativeOrNonFiniteDuration {
                phase: Phase::Accelerate,
                value: Quad::rational(sdisc),
            },
        );
    }
    let vp = Quad { a: Rat::from_int(0), b: apply_sign(p.aneg, Rat::from_int(1)) };
    let zq = Quad::rational(Rat::from_int(0));
    let u1 = match vp.qsub(Quad::rational(start_velocity)) {
        Some(x) => x,
        None => return Err(DomainError::NumericOverflow),
    };
    let t1 = match u1.div_rat(p.alpha) {
        Some(x) => x,
        None => return Err(DomainError::NumericOverflow),
    };
    let u3 = match Quad::rational(p.vec).qsub(vp) {
        Some(x) => x,
        None => return Err(DomainError::NumericOverflow),
    };
    let t3 = match u3.div_rat(p.delta) {
        Some(x) => x,
        None => return Err(DomainError::NumericOverflow),
    };
    let x1 = match second_order(t1, zq, Quad::rational(start_velocity), p.alpha, sdisc) {
        Some(x) => x,
        None => return Err(DomainError::NumericOverflow),
    };
    let x3 = match second_order(t3, zq, vp, p.delta, sdisc) {
        Some(x) => x,
        None => return Err(DomainError::NumericOverflow),
    };
    let d = Deltas { dt1: t1, dt2: zq, dt3: t3, dx1: x1, dx2: zq, dx3: x3 };
    proof {
        crate::rational::lemma_vdiv_cancel(t1.a.v(), u1.a.v(), p.alpha.v());
        crate::rational::lemma_vdiv_cancel(t1.b.v(), u1.b.v(), p.alpha.v());
        lemma_veq_trans(
            vmul(p.alpha.v(), t1.a.v()),
            u1.a.v(),
            vsub(vp.vv().0, qv_of_rat(start_velocity.v()).0),
        );
        lemma_veq_trans(
            vmul(p.alpha.v(), t1.b.v()),
            u1.b.v(),
            vsub(vp.vv().1, qv_of_rat(start_velocity.v()).1),
        );
        crate::rational::lemma_vdiv_cancel(t3.a.v(), u3.a.v(), p.delta.v());
        crate::rational::lemma_vdiv_cancel(t3.b.v(), u3.b.v(), p.delta.v());
        lemma_veq_trans(
            vmul(p.delta.v(), t3.a.v()),
            u3.a.v(),
            vsub(qv_of_rat(p.vec.v()).0, vp.vv().0),
        );
        lemma_veq_trans(
            vmul(p.delta.v(), t3.b.v()),
            u3.b.v(),
            vsub(qv_of_rat(p.vec.v()).1, vp.vv().1),
        );
        use_type_invariant(vp.a);
        use_type_invariant(vp.b);
        use_type_invariant(sdisc);
        crate::quad::lemma_qvmul_zero_right(vp.vv(), sdisc.v());
    }
    Ok((d, vp, sdisc))
}

/// The relations [`wedge`] establishes between its output and its inputs,
/// over values: the cruise phase is empty, the discriminant is nonnegative,
/// and the phase relations of [`solved_ok`] hold.
pub open spec fn wedge_facts(p: Prep, vs: Rat, d: Deltas, peak: Quad, disc: Rat) -> bool {
    &&& d.dt2 == spec_qrat(spec_rat(0, 1))
    &&& d.dx2 == spec_qrat(spec_rat(0, 1))
    &&& disc.num() >= 0
    &&& 1 <= disc.den()
    &&& qveq(qvscale(p.alpha.v(), d.dt1.vv()), qvsub(peak.vv(), qv_of_rat(vs.v())))
    &&& qveq(qvscale(p.delta.v(), d.dt3.vv()), qvsub(qv_of_rat(p.vec.v()), peak.vv()))
    &&& qveq(d.dx1.vv(), qv_so(d.dt1.vv(), qv_zero(), qv_of_rat(vs.v()), p.alpha.v(), disc.v()))
    &&& qveq(d.dx3.vv(), qv_so(d.dt3.vv(), qv_zero(), peak.vv(), p.delta.v(), disc.v()))
    &&& qveq(d.dx2.vv(), qvmul(peak.vv(), d.dt2.vv(), disc.v()))
    &&& d.dt1.wf_dens() && d.dt3.wf_dens() && d.dx1.wf_dens() && d.dx3.wf_dens()
        && peak.wf_dens()
}

/// Everything [`solve`] guarantees of a successful result, over values:
/// the limits are valid, the validator's conditions hold, the total is the
/// sum of the durations, the signed phase accelerations are the
/// acceleration limit up to sign, the clamped end velocity lies within the
/// velocity limit, and the phase kinematics relate durations,
/// displacements, peak velocity and accelerations by the second-order
/// equations.
pub open spec fn solved_ok(start: Rat, end: Rat, vs: Rat, ve: Rat, lim: Limits, sol: Solved) -> bool {
    let d = sol.deltas;
    let sv = sol.disc.v();
    &&& lim.valid()
    &&& sol.disc.num() >= 0
    &&& 1 <= sol.disc.den()
    &&& validated(d, start, end, sol.disc)
    &&& qveq(sol.total.vv(), qvadd(qvadd(d.dt1.vv(), d.dt2.vv()), d.dt3.vv()))
    &&& qv_nonneg(sol.total.vv(), sol.disc.v())
    &&& qv_nonneg(qvsub(qv_of_rat(lim.velocity.v()), sol.peak.vv()), sol.disc.v())
    &&& qv_nonneg(qvadd(qv_of_rat(lim.velocity.v()), sol.peak.vv()), sol.disc.v())
    &&& d.dt1.wf_dens() && d.dt2.wf_dens() && d.dt3.wf_dens()
    &&& d.dx1.wf_dens() && d.dx2.wf_dens() && d.dx3.wf_dens()
    &&& sol.peak.wf_dens() && sol.total.wf_dens()
    &&& 1 <= sol.accel.den() && 1 <= sol.decel.den() && 1 <= sol.end_velocity_clamped.den()
    &&& (sol.accel == lim.acceleration || sol.accel == spec_neg(lim.acceleration))
    &&& (sol.decel == lim.acceleration || sol.decel == spec_neg(lim.acceleration))
    &&& sol.accel.num() != 0
    &&& sol.decel.num() != 0
    &&& crate::rational::vle(sol.end_velocity_clamped.v(), lim.velocity.v())
    &&& crate::rational::vle(vneg(lim.velocity.v()), sol.end_velocity_clamped.v())
    &&& (veq(sol.end_velocity_clamped.v(), ve.v()) || sol.end_velocity_clamped == lim.velocity
        || sol.end_velocity_clamped == spec_neg(lim.velocity))
    &&& qveq(qvscale(sol.accel.v(), d.dt1.vv()), qvsub(sol.peak.vv(), qv_of_rat(vs.v())))
    &&& qveq(d.dx1.vv(), qv_so(d.dt1.vv(), qv_zero(), qv_of_rat(vs.v()), sol.accel.v(), sv))
    &&& qveq(d.dx2.vv(), qvmul(sol.peak.vv(), d.dt2.vv(), sv))
    &&& qveq(
        qvscale(sol.decel.v(), d.dt3.vv()),
        qvsub(qv_of_rat(sol.end_velocity_clamped.v()), sol.peak.vv()),
    )
    &&& qveq(d.dx3.vv(), qv_so(d.dt3.vv(), qv_zero(), sol.peak.vv(), sol.decel.v(), sv))
}

/// Whether the full-trapezoid trial of these inputs yields a negative
/// cruise duration, so that [`solve`] takes the wedge fallback.
pub open spec fn wedge_taken(start: Rat, end: Rat, vs: Rat, ve: Rat, lim: Limits) -> bool {
    match spec_prep(start, end, vs, ve, lim) {
        Some(p) => match spec_trial(p, start, end, vs) {
            Some(tr) => tr.t2.num() < 0,
            None => false,
        },
        None => false,
    }
}

/// Mirror of [`solve`].
pub open spec fn spec_solve(start: Rat, end: Rat, vs: Rat, ve: Rat, lim: Limits) -> Result<
    Solved,
    DomainError,
> {
    if !lim.valid() {
        Err(DomainError::InvalidLimits)
    } else {
        match spec_prep(start, end, vs, ve, lim) {
            None => Err(DomainError::NumericOverflow),
            Some(p) => match spec_trial(p, start, end, vs) {
                None => Err(DomainError::NumericOverflow),
                Some(tr) => {
                    if tr.t2.num() >= 0 {
                        match spec_mul(p.vpt, tr.t2) {
                            None => Err(DomainError::NumericOverflow),
                            Some(x2) => spec_finish(
                                start,
                                end,
                                Deltas {
                                    dt1: spec_qrat(tr.t1),
                                    dt2: spec_qrat(tr.t2),
                                    dt3: spec_qrat(tr.t3),
                                    dx1: spec_qrat(tr.x1),
                                    dx2: spec_qrat(x2),
                                    dx3: spec_qrat(tr.x3),
                                },
                                spec_qrat(p.vpt),
                                spec_rat(0, 1),
                                p,
                                lim,
                            ),
                        }
                    } else {
                        match spec_wedge(p, start, end, vs) {
                            Err(e) => Err(e),
                            Ok(out) => spec_finish(start, end, out.0, out.1, out.2, p, lim),
                        }
                    }
                },
            },
        }
    }
}

/// Mirror of the common tail of [`solve`]: validate, total the durations,
/// and check that the peak velocity stays within the velocity limit.
pub open spec fn spec_finish(
    start: Rat,
    end: Rat,
    d: Deltas,
    peak: Quad,
    disc: Rat,
    p: Prep,
    lim: Limits,
) -> Result<Solved, DomainError> {
    match spec_validate(d, start, end, disc) {
        Err(e) => Err(e),
        Ok(u) => match spec_qadd(d.dt1, d.dt2) {
            None => Err(DomainError::NumericOverflow),
            Some(t12) => match spec_qadd(t12, d.dt3) {
                None => Err(DomainError::NumericOverflow),
                Some(total) => match spec_qnonneg(total, disc) {
                    None => Err(DomainError::NumericOverflow),
                    Some(false) => Err(
                        DomainError::NegativeOrNonFiniteDuration {
                            phase: Phase::Decelerate,
                            value: total,
                        },
                    ),
                    Some(true) => match spec_qsub(spec_qrat(lim.velocity), peak) {
                        None => Err(DomainError::NumericOverflow),
                        Some(hi) => match spec_qnonneg(hi, disc) {
                            None => Err(DomainError::NumericOverflow),
                            Some(false) => Err(
                                DomainError::NegativeOrNonFiniteDuration {
                                    phase: Phase::Cruise,
                                    value: peak,
                                },
                            ),
                            Some(true) => match spec_qadd(spec_qrat(lim.velocity), peak) {
                                None => Err(DomainError::NumericOverflow),
                                Some(lo) => match spec_qnonneg(lo, disc) {
                                    None => Err(DomainError::NumericOverflow),
                                    Some(false) => Err(
                                        DomainError::NegativeOrNonFiniteDuration {
                                            phase: Phase::Cruise,
                                            value: peak,
                                        },
                                    ),
                                    Some(true) => Ok(
                                        Solved {
                                            deltas: d,
                                            peak,
                                            disc,
                                            accel: p.alpha,
                                            decel: p.delta,
                                            end_velocity_clamped: p.vec,
                                            total,
                                        },
                                    ),
                                },
                            },
                        },
                    },
                },
            },
        },
    }
}

/// Solve a move: determine direction and phase signs, try the full
/// trapezoid, fall back to the wedge when the trial cruise duration is
/// negative, and validate the result.  On success the returned state
/// satisfies [`solved_ok`]; on failure nothing is produced.  The result is
/// pinned to [`spec_solve`], so solving is deterministic bit for bit.
pub fn solve(start: Rat, end: Rat, start_velocity: Rat, end_velocity: Rat, limits: Limits) -> (r:
    Result<Solved, DomainError>)
    ensures
        r == spec_solve(start, end, start_velocity, end_velocity, limits),
        r matches Ok(sol) ==> solved_ok(start, end, start_velocity, end_velocity, limits, sol),
        r == Err::<Solved, DomainError>(DomainError::InvalidLimits) <==> !limits.valid(),
        r matches Ok(sol) ==> (wedge_taken(start, end, start_velocity, end_velocity, limits)
            ==> sol.deltas.dt2 == spec_qrat(spec_rat(0, 1)) && sol.deltas.dx2 == spec_qrat(
            spec_rat(0, 1),
        )),
{
    if !limits.is_valid() {
        return Err(DomainError::InvalidLimits);
    }
    let p = match prepare(start, end, start_velocity, end_velocity, limits) {
        Some(x) => x,
        None => return Err(DomainError::NumericOverflow),
    };
    let tr = match trial(p, start, end, start_velocity) {
        Some(x) => x,
        None => return Err(DomainError::NumericOverflow),
    };
    let zero_disc = Rat::from_int(0);
    let (deltas, peak, disc) = if tr.t2.is_nonneg() {
        let x2 = match p.vpt.checked_mul(tr.t2) {
            Some(x) => x,
            None => return Err(DomainError::NumericOverflow),
        };
        let d = Deltas {
            dt1: Quad::rational(tr.t1),
            dt2: Quad::rational(tr.t2),
            dt3: Quad::rational(tr.t3),
            dx1: Quad::rational(tr.x1),
            dx2: Quad::rational(x2),
            dx3: Quad::rational(tr.x3),
        };
        let pk = Quad::rational(p.vpt);
        proof {
            use_type_invariant(start_velocity);
            use_type_invariant(p.alpha);
            use_type_invariant(p.delta);
            use_type_invariant(p.vpt);
            use_type_invariant(p.vec);
            use_type_invariant(x2);
            let sv = zero_disc.v();
            lemma_den_pos(p.vpt.den(), start_velocity.den());
            lemma_lift_scale(
                p.alpha.v(),
                tr.t1.v(),
                vsub(p.vpt.v(), start_velocity.v()),
            );
            assert(qvsub(pk.vv(), qv_of_rat(start_velocity.v())) == qv_of_rat(
                vsub(p.vpt.v(), start_velocity.v()),
            ));
            lemma_den_pos(p.vec.den(), p.vpt.den());
            lemma_lift_scale(p.delta.v(), tr.t3.v(), vsub(p.vec.v(), p.vpt.v()));
            assert(qvsub(qv_of_rat(p.vec.v()), pk.vv()) == qv_of_rat(
                vsub(p.vec.v(), p.vpt.v()),
            ));
            lemma_qv_so_embed(
                tr.t1.v(),
                (0int, 1int),
                start_velocity.v(),
                p.alpha.v(),
                sv,
            );
            lemma_qveq_trans(
                d.dx1.vv(),
                qv_of_rat(v_so(tr.t1.v(), (0int, 1int), start_velocity.v(), p.alpha.v())),
                qv_so(d.dt1.vv(), qv_zero(), qv_of_rat(start_velocity.v()), p.alpha.v(), sv),
            );
            lemma_qv_so_embed(tr.t3.v(), (0int, 1int), p.vpt.v(), p.delta.v(), sv);
            lemma_qveq_trans(
                d.dx3.vv(),
                qv_of_rat(v_so(tr.t3.v(), (0int, 1int), p.vpt.v(), p.delta.v())),
                qv_so(d.dt3.vv(), qv_zero(), pk.vv(), p.delta.v(), sv),
            );
            crate::quad::lemma_embed_mul(p.vpt.v(), tr.t2.v(), sv);
            lemma_qveq_trans(
                d.dx2.vv(),
                qv_of_rat(vmul(p.vpt.v(), tr.t2.v())),
                qvmul(pk.vv(), d.dt2.vv(), sv),
            );
        }
        (d, pk, zero_disc)
    } else {
        let out = match wedge(p, start, end, start_velocity) {
            Ok(x) => x,
            Err(e) => return Err(e),
        };
        out
    };
    match validate_deltas(&deltas, start, end, disc) {
        Ok(u) => {},
        Err(e) => return Err(e),
    }
    let t12 = match deltas.dt1.qadd(deltas.dt2) {
        Some(x) => x,
        None => return Err(DomainError::NumericOverflow),
    };
    let total = match t12.qadd(deltas.dt3) {
        Some(x) => x,
        None => return Err(DomainError::NumericOverflow),
    };
    let tn = match total.nonneg(disc) {
        Some(b) => b,
        None => return Err(DomainError::NumericOverflow),
    };
    if !tn {
        return Err(
            DomainError::NegativeOrNonFiniteDuration { phase: Phase::Decelerate, value: total },
        );
    }
    let vq = Quad::rational(limits.velocity);
    let hi = match vq.qsub(peak) {
        Some(x) => x,
        None => return Err(DomainError::NumericOverflow),
    };
    let hi_ok = match hi.nonneg(disc) {
        Some(b) => b,
        None => return Err(DomainError::NumericOverflow),
    };
    if !hi_ok {
        return Err(DomainError::NegativeOrNonFiniteDuration { phase: Phase::Cruise, value: peak });
    }
    let lo = match vq.qadd(peak) {
        Some(x) => x,
        None => return Err(DomainError::NumericOverflow),
    };
    let lo_ok = match lo.nonneg(disc) {
        Some(b) => b,
        None => return Err(DomainError::NumericOverflow),
    };
    if !lo_ok {
        return Err(DomainError::NegativeOrNonFiniteDuration { phase: Phase::Cruise, value: peak });
    }
    proof {
        use_type_invariant(deltas.dt1.a);
        use_type_invariant(deltas.dt1.b);
        use_type_invariant(deltas.dt2.a);
        use_type_invariant(deltas.dt2.b);
        use_type_invariant(deltas.dt3.a);
        use_type_invariant(deltas.dt3.b);
        use_type_invariant(deltas.dx1.a);
        use_type_invariant(deltas.dx1.b);
        use_type_invariant(deltas.dx2.a);
        use_type_invariant(deltas.dx2.b);
        use_type_invariant(deltas.dx3.a);
        use_type_invariant(deltas.dx3.b);
        use_type_invariant(peak.a);
        use_type_invariant(peak.b);
        use_type_invariant(disc);
        use_type_invariant(p.alpha);
        use_type_invariant(p.delta);
        use_type_invariant(p.vec);
        lemma_den_pos(deltas.dt1.a.den(), deltas.dt2.a.den());
        lemma_den_pos(deltas.dt1.b.den(), deltas.dt2.b.den());
        lemma_qvadd_congr(
            t12.vv(),
            qvadd(deltas.dt1.vv(), deltas.dt2.vv()),
            deltas.dt3.vv(),
            deltas.dt3.vv(),
        );
        lemma_qveq_trans(
            total.vv(),
            qvadd(t12.vv(), deltas.dt3.vv()),
            qvadd(qvadd(deltas.dt1.vv(), deltas.dt2.vv()), deltas.dt3.vv()),
        );
        use_type_invariant(limits.velocity);
        crate::quad::lemma_qvadd_congr(
            vq.vv(),
            qv_of_rat(limits.velocity.v()),
            peak.vv(),
            peak.vv(),
        );
        crate::quad::lemma_qv_nonneg_congr(
            hi.vv(),
            qvsub(qv_of_rat(limits.velocity.v()), peak.vv()),
            disc.v(),
        );
        crate::quad::lemma_qv_nonneg_congr(
            lo.vv(),
            qvadd(qv_of_rat(limits.velocity.v()), peak.vv()),
            disc.v(),
        );
    }
    Ok(
        Solved {
            deltas,
            peak,
            disc,
            accel: p.alpha,
            decel: p.delta,
            end_velocity_clamped: p.vec,
            total,
        },
    )
}

} // verus!
