//! Laws of the library, each stated over the public spec functions and
//! proved for every valid segment.
//!
//! Beyond these, two guarantees are stated directly as contracts elsewhere:
//! the wedge fallback always produces an exactly empty cruise phase (an
//! `ensures` of [`crate::solver::solve`]), and every solved segment passes
//! the validator's duration and displacement checks (part of
//! [`crate::solver::solved_ok`], restated here as laws).

use crate::quad::{
    lemma_qv_nonneg_congr, lemma_qvadd_congr, lemma_qvadd_sub_cancel, lemma_qvadd_zero,
    lemma_qvadd_assoc, lemma_qveq_trans, lemma_qvmul_congr, lemma_qvmul_zero_right,
    lemma_qvscale_congr, lemma_qvscale_zero, lemma_qvsub_self, qv_dens_pos, qv_nonneg, qv_of_rat,
    qv_zero, qvadd, qveq, qvmul, qvscale, qvsub, QuadV,
};
use crate::rational::{lemma_den_pos, lemma_mul_units, lemma_zero_num, veq, vmul, vneg, vsub, Rat};
use crate::segment::TrajectorySegment;
use crate::solver::{qv_so, Limits, Solved};
use vstd::prelude::*;

verus! {

/// Every phase duration of a valid segment is nonnegative, and so is the
/// total duration.  A segment whose inputs cannot satisfy this is never
/// produced: the solver returns an error instead.
pub proof fn lemma_durations_nonnegative(seg: TrajectorySegment)
    requires
        seg.valid(),
    ensures
        qv_nonneg(seg.sol().deltas.dt1.vv(), seg.sol().disc.v()),
        qv_nonneg(seg.sol().deltas.dt2.vv(), seg.sol().disc.v()),
        qv_nonneg(seg.sol().deltas.dt3.vv(), seg.sol().disc.v()),
        qv_nonneg(seg.sol().total.vv(), seg.sol().disc.v()),
{
}

/// The phase displacements of a valid segment sum exactly to
/// `end - start` — an identity of exact values, not an approximation —
/// and the total duration is exactly the sum of the phase durations.
/// This holds after construction and after every successful setter call,
/// since each re-solve is validated before it is committed.
pub proof fn lemma_displacement_identity(seg: TrajectorySegment)
    requires
        seg.valid(),
    ensures
        qveq(
            qvadd(
                qvadd(seg.sol().deltas.dx1.vv(), seg.sol().deltas.dx2.vv()),
                seg.sol().deltas.dx3.vv(),
            ),
            qv_of_rat(vsub(seg.spec_end().v(), seg.spec_start().v())),
        ),
        qveq(
            seg.sol().total.vv(),
            qvadd(
                qvadd(seg.sol().deltas.dt1.vv(), seg.sol().deltas.dt2.vv()),
                seg.sol().deltas.dt3.vv(),
            ),
        ),
{
}

/// The peak (cruise) velocity of a valid segment stays within the velocity
/// limit in magnitude: `-velocity_limit <= peak <= velocity_limit`, as the
/// exact sign test states it.  In the wedge case the peak is the square
/// root of the discriminant and may be strictly lower in magnitude than
/// the limit.
pub proof fn lemma_peak_within_limit(seg: TrajectorySegment)
    requires
        seg.valid(),
    ensures
        qv_nonneg(
            qvsub(qv_of_rat(seg.spec_limits().velocity.v()), seg.sol().peak.vv()),
            seg.sol().disc.v(),
        ),
        qv_nonneg(
            qvadd(qv_of_rat(seg.spec_limits().velocity.v()), seg.sol().peak.vv()),
            seg.sol().disc.v(),
        ),
{
}

/// The second-order formula at a zero-valued time is the initial position.
proof fn lemma_qv_so_at_zero(t: QuadV, x0: QuadV, v0: QuadV, acc: (int, int), s: (int, int))
    requires
        qveq(t, qv_zero()),
        qv_dens_pos(t),
        qv_dens_pos(x0),
        qv_dens_pos(v0),
        acc.1 >= 1,
        s.1 >= 1,
    ensures
        qveq(qv_so(t, x0, v0, acc, s), x0),
{
    let h = vmul((1int, 2int), acc);
    lemma_den_pos(2, acc.1);
    lemma_qvmul_congr(v0, v0, t, qv_zero(), s);
    lemma_qvmul_zero_right(v0, s);
    lemma_qveq_trans(qvmul(v0, t, s), qvmul(v0, qv_zero(), s), qv_zero());
    lemma_qvmul_congr(t, qv_zero(), t, qv_zero(), s);
    lemma_qvmul_zero_right(qv_zero(), s);
    lemma_qveq_trans(qvmul(t, t, s), qvmul(qv_zero(), qv_zero(), s), qv_zero());
    lemma_qvscale_congr(h, h, qvmul(t, t, s), qv_zero());
    lemma_qvscale_zero(h, qv_zero());
    lemma_qveq_trans(qvscale(h, qvmul(t, t, s)), qvscale(h, qv_zero()), qv_zero());
    lemma_qvadd_congr(qvmul(v0, t, s), qv_zero(), qvscale(h, qvmul(t, t, s)), qv_zero());
    lemma_qvadd_zero(qv_zero(), qv_zero());
    lemma_qveq_trans(
        qvadd(qvmul(v0, t, s), qvscale(h, qvmul(t, t, s))),
        qvadd(qv_zero(), qv_zero()),
        qv_zero(),
    );
    lemma_qvadd_zero(x0, qvadd(qvmul(v0, t, s), qvscale(h, qvmul(t, t, s))));
}

/// Denominator positivity of all parts of the second-order formula.
proof fn lemma_so_dens(t: QuadV, x0: QuadV, v0: QuadV, acc: (int, int), s: (int, int))
    requires
        qv_dens_pos(t),
        qv_dens_pos(x0),
        qv_dens_pos(v0),
        acc.1 >= 1,
        s.1 >= 1,
    ensures
        qv_dens_pos(qvmul(v0, t, s)),
        qv_dens_pos(qvmul(t, t, s)),
        qv_dens_pos(qvscale(vmul((1int, 2int), acc), qvmul(t, t, s))),
        qv_dens_pos(
            qvadd(qvmul(v0, t, s), qvscale(vmul((1int, 2int), acc), qvmul(t, t, s))),
        ),
        qv_dens_pos(qv_so(t, x0, v0, acc, s)),
{
    let h = vmul((1int, 2int), acc);
    lemma_den_pos(2, acc.1);
    lemma_qvmul_congr(v0, v0, t, t, s);
    lemma_qvmul_congr(t, t, t, t, s);
    lemma_qvscale_congr(h, h, qvmul(t, t, s), qvmul(t, t, s));
    lemma_qvadd_congr(
        qvmul(v0, t, s),
        qvmul(v0, t, s),
        qvscale(h, qvmul(t, t, s)),
        qvscale(h, qvmul(t, t, s)),
    );
    lemma_qvadd_congr(
        x0,
        x0,
        qvadd(qvmul(v0, t, s), qvscale(h, qvmul(t, t, s))),
        qvadd(qvmul(v0, t, s), qvscale(h, qvmul(t, t, s))),
    );
}

/// The phase displacement relation of [`crate::solver::solved_ok`], with
/// the initial-position term cancelled: the inner sum of the second-order
/// formula over a phase equals that phase's displacement.
proof fn lemma_phase_inner(d_x: QuadV, d_t: QuadV, v0: QuadV, acc: (int, int), s: (int, int))
    requires
        qveq(d_x, qv_so(d_t, qv_zero(), v0, acc, s)),
        qv_dens_pos(d_x),
        qv_dens_pos(d_t),
        qv_dens_pos(v0),
        acc.1 >= 1,
        s.1 >= 1,
    ensures
        qveq(
            qvadd(qvmul(v0, d_t, s), qvscale(vmul((1int, 2int), acc), qvmul(d_t, d_t, s))),
            d_x,
        ),
{
    let inner = qvadd(qvmul(v0, d_t, s), qvscale(vmul((1int, 2int), acc), qvmul(d_t, d_t, s)));
    lemma_so_dens(d_t, qv_zero(), v0, acc, s);
    lemma_qvadd_zero(inner, qv_zero());
    // qv_so(d_t, 0, v0, acc, s) == qvadd(0, inner) ~ inner
    lemma_qveq_trans(d_x, qv_so(d_t, qv_zero(), v0, acc, s), inner);
}

/// At the start of its domain the profile is at `start`: the
/// acceleration-phase position formula evaluated at time zero is the start
/// position, so `position(0) == start` whenever time zero falls in the
/// acceleration phase.  (When `dt1 == 0` the instant belongs to the next
/// phase; the continuity laws below show the adjoining formulas agree
/// there.)
pub proof fn lemma_position_at_zero(seg: TrajectorySegment)
    requires
        seg.valid(),
        !seg.spec_past_end(qv_zero()),
        seg.spec_in_accel(qv_zero()),
    ensures
        qveq(seg.spec_position_v(qv_zero()), qv_of_rat(seg.spec_start().v())),
{
    let sol = seg.sol();
    let sv = sol.disc.v();
    lemma_qv_so_at_zero(
        qv_zero(),
        qv_of_rat(seg.spec_start().v()),
        qv_of_rat(seg.spec_start_velocity().v()),
        sol.accel.v(),
        sv,
    );
}

/// At the end of its domain the profile is at `end`: querying the position
/// at the total duration returns exactly the end position (the evaluator
/// clamps there, and the continuity law below shows the deceleration-phase
/// formula agrees).
pub proof fn lemma_position_at_duration(seg: TrajectorySegment)
    requires
        seg.valid(),
    ensures
        seg.spec_position_v(seg.sol().total.vv()) == qv_of_rat(seg.spec_end().v()),
{
    let sol = seg.sol();
    let sv = sol.disc.v();
    lemma_qvsub_self(sol.total.vv());
    lemma_qv_nonneg_congr(qvsub(sol.total.vv(), sol.total.vv()), qv_zero(), sv);
}

/// The start-of-domain velocity is the start velocity: the
/// acceleration-phase velocity formula at time zero is `start_velocity`.
pub proof fn lemma_velocity_at_zero(seg: TrajectorySegment)
    requires
        seg.valid(),
        !seg.spec_past_end(qv_zero()),
        seg.spec_in_accel(qv_zero()),
    ensures
        qveq(seg.spec_velocity_v(qv_zero()), qv_of_rat(seg.spec_start_velocity().v())),
{
    let sol = seg.sol();
    let sv = sol.disc.v();
    let vsq = qv_of_rat(seg.spec_start_velocity().v());
    lemma_qvscale_zero(sol.accel.v(), qv_zero());
    lemma_qvadd_congr(vsq, vsq, qvscale(sol.accel.v(), qv_zero()), qv_zero());
    lemma_qvadd_zero(vsq, qv_zero());
    lemma_qveq_trans(
        qvadd(vsq, qvscale(sol.accel.v(), qv_zero())),
        qvadd(vsq, qv_zero()),
        vsq,
    );
}

/// The end-of-domain velocity is the clamped end velocity: querying the
/// velocity at the total duration returns exactly the requested end
/// velocity clamped to `[-velocity_limit, velocity_limit]`.
pub proof fn lemma_velocity_at_duration(seg: TrajectorySegment)
    requires
        seg.valid(),
    ensures
        seg.spec_velocity_v(seg.sol().total.vv()) == qv_of_rat(
            seg.sol().end_velocity_clamped.v(),
        ),
        crate::rational::vle(
            seg.sol().end_velocity_clamped.v(),
            seg.spec_limits().velocity.v(),
        ),
        crate::rational::vle(
            vneg(seg.spec_limits().velocity.v()),
            seg.sol().end_velocity_clamped.v(),
        ),
        veq(seg.sol().end_velocity_clamped.v(), seg.spec_end_velocity().v())
            || seg.sol().end_velocity_clamped == seg.spec_limits().velocity
            || seg.sol().end_velocity_clamped == crate::rational::spec_neg(
            seg.spec_limits().velocity,
        ),
{
    let sol = seg.sol();
    let sv = sol.disc.v();
    lemma_qvsub_self(sol.total.vv());
    lemma_qv_nonneg_congr(qvsub(sol.total.vv(), sol.total.vv()), qv_zero(), sv);
}

/// Continuity at the acceleration/cruise boundary: the acceleration-phase
/// position formula at `dt1` and the cruise-phase formula at its local
/// time zero both equal `start + dx1` exactly.
pub proof fn lemma_position_continuous_accel_cruise(seg: TrajectorySegment)
    requires
        seg.valid(),
    ensures
        qveq(
            qv_so(
                seg.sol().deltas.dt1.vv(),
                qv_of_rat(seg.spec_start().v()),
                qv_of_rat(seg.spec_start_velocity().v()),
                seg.sol().accel.v(),
                seg.sol().disc.v(),
            ),
            qvadd(qv_of_rat(seg.spec_start().v()), seg.sol().deltas.dx1.vv()),
        ),
        qveq(
            qv_so(
                qvsub(seg.sol().deltas.dt1.vv(), seg.sol().deltas.dt1.vv()),
                qvadd(qv_of_rat(seg.spec_start().v()), seg.sol().deltas.dx1.vv()),
                seg.sol().peak.vv(),
                (0int, 1int),
                seg.sol().disc.v(),
            ),
            qvadd(qv_of_rat(seg.spec_start().v()), seg.sol().deltas.dx1.vv()),
        ),
{
    let sol = seg.sol();
    let sv = sol.disc.v();
    let st = qv_of_rat(seg.spec_start().v());
    let vs = qv_of_rat(seg.spec_start_velocity().v());
    let dt1 = sol.deltas.dt1.vv();
    let dx1 = sol.deltas.dx1.vv();
    let inner = qvadd(
        qvmul(vs, dt1, sv),
        qvscale(vmul((1int, 2int), sol.accel.v()), qvmul(dt1, dt1, sv)),
    );
    lemma_so_dens(dt1, st, vs, sol.accel.v(), sv);
    lemma_phase_inner(dx1, dt1, vs, sol.accel.v(), sv);
    lemma_qvadd_congr(st, st, inner, dx1);
    lemma_den_pos(st.0.1, dx1.0.1);
    lemma_den_pos(st.1.1, dx1.1.1);
    lemma_qvsub_self(dt1);
    lemma_mul_units(1int);
    lemma_qv_so_at_zero(qvsub(dt1, dt1), qvadd(st, dx1), sol.peak.vv(), (0int, 1int), sv);
}

/// Continuity at the cruise/deceleration boundary: the cruise-phase
/// position formula at `dt2` and the deceleration-phase formula at its
/// local time zero both equal `start + dx1 + dx2` exactly.
pub proof fn lemma_position_continuous_cruise_decel(seg: TrajectorySegment)
    requires
        seg.valid(),
    ensures
        qveq(
            qv_so(
                seg.sol().deltas.dt2.vv(),
                qvadd(qv_of_rat(seg.spec_start().v()), seg.sol().deltas.dx1.vv()),
                seg.sol().peak.vv(),
                (0int, 1int),
                seg.sol().disc.v(),
            ),
            qvadd(
                qvadd(qv_of_rat(seg.spec_start().v()), seg.sol().deltas.dx1.vv()),
                seg.sol().deltas.dx2.vv(),
            ),
        ),
        qveq(
            qv_so(
                qv_zero(),
                qvadd(
                    qvadd(qv_of_rat(seg.spec_start().v()), seg.sol().deltas.dx1.vv()),
                    seg.sol().deltas.dx2.vv(),
                ),
                seg.sol().peak.vv(),
                seg.sol().decel.v(),
                seg.sol().disc.v(),
            ),
            qvadd(
                qvadd(qv_of_rat(seg.spec_start().v()), seg.sol().deltas.dx1.vv()),
                seg.sol().deltas.dx2.vv(),
            ),
        ),
{
    let sol = seg.sol();
    let sv = sol.disc.v();
    let st = qv_of_rat(seg.spec_start().v());
    let dt2 = sol.deltas.dt2.vv();
    let dx1 = sol.deltas.dx1.vv();
    let dx2 = sol.deltas.dx2.vv();
    let pk = sol.peak.vv();
    let x01 = qvadd(st, dx1);
    let h0 = vmul((1int, 2int), (0int, 1int));
    lemma_den_pos(st.0.1, dx1.0.1);
    lemma_den_pos(st.1.1, dx1.1.1);
    lemma_so_dens(dt2, x01, pk, (0int, 1int), sv);
    // the half-acceleration coefficient of the cruise phase is zero-valued
    lemma_mul_units(1int);
    lemma_zero_num(h0);
    lemma_qvscale_zero(h0, qvmul(dt2, dt2, sv));
    // inner sum of the cruise formula ~ peak * dt2 ~ dx2
    lemma_qvmul_congr(pk, pk, dt2, dt2, sv);
    lemma_qvadd_congr(qvmul(pk, dt2, sv), qvmul(pk, dt2, sv), qvscale(h0, qvmul(dt2, dt2, sv)), qv_zero());
    lemma_qvadd_zero(qvmul(pk, dt2, sv), qv_zero());
    lemma_qveq_trans(
        qvadd(qvmul(pk, dt2, sv), qvscale(h0, qvmul(dt2, dt2, sv))),
        qvadd(qvmul(pk, dt2, sv), qv_zero()),
        qvmul(pk, dt2, sv),
    );
    lemma_qveq_trans(
        qvadd(qvmul(pk, dt2, sv), qvscale(h0, qvmul(dt2, dt2, sv))),
        qvmul(pk, dt2, sv),
        dx2,
    );
    lemma_qvadd_congr(
        x01,
        x01,
        qvadd(qvmul(pk, dt2, sv), qvscale(h0, qvmul(dt2, dt2, sv))),
        dx2,
    );
    // the deceleration-phase formula at local time zero
    lemma_den_pos(x01.0.1, dx2.0.1);
    lemma_den_pos(x01.1.1, dx2.1.1);
    lemma_qv_so_at_zero(qv_zero(), qvadd(x01, dx2), pk, sol.decel.v(), sv);
}

/// Continuity of velocity at both boundaries: the acceleration-phase
/// velocity formula at `dt1` is exactly the peak velocity, and the
/// deceleration-phase formula at its local time zero is the peak velocity
/// as well (the cruise velocity is the peak by definition).
pub proof fn lemma_velocity_continuous(seg: TrajectorySegment)
    requires
        seg.valid(),
    ensures
        qveq(
            qvadd(
                qv_of_rat(seg.spec_start_velocity().v()),
                qvscale(seg.sol().accel.v(), seg.sol().deltas.dt1.vv()),
            ),
            seg.sol().peak.vv(),
        ),
        qveq(
            qvadd(seg.sol().peak.vv(), qvscale(seg.sol().decel.v(), qv_zero())),
            seg.sol().peak.vv(),
        ),
{
    let sol = seg.sol();
    let sv = sol.disc.v();
    let vs = qv_of_rat(seg.spec_start_velocity().v());
    let dt1 = sol.deltas.dt1.vv();
    let pk = sol.peak.vv();
    // accel * dt1 ~ peak - vs, so vs + accel * dt1 ~ vs + (peak - vs) ~ peak
    lemma_qvscale_congr(sol.accel.v(), sol.accel.v(), dt1, dt1);
    lemma_den_pos(pk.0.1, vs.0.1);
    lemma_den_pos(pk.1.1, vs.1.1);
    lemma_qvadd_congr(vs, vs, qvscale(sol.accel.v(), dt1), qvsub(pk, vs));
    lemma_qvadd_sub_cancel(vs, pk);
    lemma_qveq_trans(
        qvadd(vs, qvscale(sol.accel.v(), dt1)),
        qvadd(vs, qvsub(pk, vs)),
        pk,
    );
    // decel * 0 ~ 0, so peak + decel * 0 ~ peak
    lemma_qvscale_zero(sol.decel.v(), qv_zero());
    lemma_qvadd_congr(pk, pk, qvscale(sol.decel.v(), qv_zero()), qv_zero());
    lemma_qvadd_zero(pk, qv_zero());
    lemma_qveq_trans(
        qvadd(pk, qvscale(sol.decel.v(), qv_zero())),
        qvadd(pk, qv_zero()),
        pk,
    );
}

/// The deceleration-phase position formula, evaluated over the whole final
/// phase (`dt3`), reaches exactly the end position: clamping past the
/// duration agrees with the limit of the in-domain formulas.
pub proof fn lemma_decel_phase_reaches_end(seg: TrajectorySegment)
    requires
        seg.valid(),
    ensures
        qveq(
            qv_so(
                seg.sol().deltas.dt3.vv(),
                qvadd(
                    qvadd(qv_of_rat(seg.spec_start().v()), seg.sol().deltas.dx1.vv()),
                    seg.sol().deltas.dx2.vv(),
                ),
                seg.sol().peak.vv(),
                seg.sol().decel.v(),
                seg.sol().disc.v(),
            ),
            qv_of_rat(seg.spec_end().v()),
        ),
{
    let sol = seg.sol();
    let sv = sol.disc.v();
    let st = qv_of_rat(seg.spec_start().v());
    let en = qv_of_rat(seg.spec_end().v());
    let dt3 = sol.deltas.dt3.vv();
    let dx1 = sol.deltas.dx1.vv();
    let dx2 = sol.deltas.dx2.vv();
    let dx3 = sol.deltas.dx3.vv();
    let pk = sol.peak.vv();
    let x02 = qvadd(qvadd(st, dx1), dx2);
    let inner = qvadd(
        qvmul(pk, dt3, sv),
        qvscale(vmul((1int, 2int), sol.decel.v()), qvmul(dt3, dt3, sv)),
    );
    lemma_den_pos(st.0.1, dx1.0.1);
    lemma_den_pos(st.1.1, dx1.1.1);
    lemma_den_pos(st.0.1 * dx1.0.1, dx2.0.1);
    lemma_den_pos(st.1.1 * dx1.1.1, dx2.1.1);
    lemma_so_dens(dt3, x02, pk, sol.decel.v(), sv);
    lemma_phase_inner(dx3, dt3, pk, sol.decel.v(), sv);
    // formula ~ x02 + dx3
    lemma_qvadd_congr(x02, x02, inner, dx3);
    // ((start + dx1) + dx2) + dx3 ~ start + ((dx1 + dx2) + dx3)
    lemma_den_pos(dx1.0.1, dx2.0.1);
    lemma_den_pos(dx1.1.1, dx2.1.1);
    lemma_den_pos(dx1.0.1 * dx2.0.1, dx3.0.1);
    lemma_den_pos(dx1.1.1 * dx2.1.1, dx3.1.1);
    lemma_den_pos(st.0.1, dx1.0.1 * dx2.0.1);
    lemma_den_pos(st.1.1, dx1.1.1 * dx2.1.1);
    lemma_den_pos(seg.spec_end().den(), seg.spec_start().den());
    lemma_qvadd_assoc(st, dx1, dx2);
    lemma_qvadd_congr(qvadd(qvadd(st, dx1), dx2), qvadd(st, qvadd(dx1, dx2)), dx3, dx3);
    lemma_qvadd_assoc(st, qvadd(dx1, dx2), dx3);
    lemma_qvadd_congr(st, st, qvadd(qvadd(dx1, dx2), dx3), qv_of_rat(
        vsub(seg.spec_end().v(), seg.spec_start().v()),
    ));
    // start + (end - start) ~ end
    lemma_qvadd_sub_cancel(st, en);
    // chain everything together
    lemma_qveq_trans(
        qv_so(dt3, x02, pk, sol.decel.v(), sv),
        qvadd(x02, dx3),
        qvadd(qvadd(st, qvadd(dx1, dx2)), dx3),
    );
    lemma_qveq_trans(
        qv_so(dt3, x02, pk, sol.decel.v(), sv),
        qvadd(qvadd(st, qvadd(dx1, dx2)), dx3),
        qvadd(st, qvadd(qvadd(dx1, dx2), dx3)),
    );
    lemma_qveq_trans(
        qv_so(dt3, x02, pk, sol.decel.v(), sv),
        qvadd(st, qvadd(qvadd(dx1, dx2), dx3)),
        qvadd(st, qv_of_rat(vsub(seg.spec_end().v(), seg.spec_start().v()))),
    );
    lemma_qveq_trans(
        qv_so(dt3, x02, pk, sol.decel.v(), sv),
        qvadd(st, qv_of_rat(vsub(seg.spec_end().v(), seg.spec_start().v()))),
        en,
    );
}

/// Setting the velocity limit twice to the same value gives a state
/// identical, bit for bit, to setting it once.
pub proof fn lemma_set_velocity_limit_idempotent(seg: TrajectorySegment, limit: Rat)
    ensures
        seg.spec_after_set_velocity_limit(limit).spec_after_set_velocity_limit(limit)
            == seg.spec_after_set_velocity_limit(limit),
{
    let lims = Limits { acceleration: seg.spec_limits().acceleration, velocity: limit };
    let s1 = seg.spec_after_set_velocity_limit(limit);
    match crate::solver::spec_solve(
        seg.spec_start(),
        seg.spec_end(),
        seg.spec_start_velocity(),
        seg.spec_end_velocity(),
        lims,
    ) {
        Ok(sol) => {
            seg.lemma_with_limits_solution(lims, sol);
            s1.lemma_with_limits_solution(lims, sol);
            TrajectorySegment::lemma_ext(s1.with_limits_solution(lims, sol), s1);
        },
        Err(e) => {},
    }
}

/// Setting the acceleration limit twice to the same value gives a state
/// identical, bit for bit, to setting it once.
pub proof fn lemma_set_acceleration_limit_idempotent(seg: TrajectorySegment, limit: Rat)
    ensures
        seg.spec_after_set_acceleration_limit(limit).spec_after_set_acceleration_limit(limit)
            == seg.spec_after_set_acceleration_limit(limit),
{
    let lims = Limits { acceleration: limit, velocity: seg.spec_limits().velocity };
    let s1 = seg.spec_after_set_acceleration_limit(limit);
    match crate::solver::spec_solve(
        seg.spec_start(),
        seg.spec_end(),
        seg.spec_start_velocity(),
        seg.spec_end_velocity(),
        lims,
    ) {
        Ok(sol) => {
            seg.lemma_with_limits_solution(lims, sol);
            s1.lemma_with_limits_solution(lims, sol);
            TrajectorySegment::lemma_ext(s1.with_limits_solution(lims, sol), s1);
        },
        Err(e) => {},
    }
}

/// Setting the start velocity twice to the same value gives a state
/// identical, bit for bit, to setting it once.
pub proof fn lemma_set_start_velocity_idempotent(seg: TrajectorySegment, velocity: Rat)
    ensures
        seg.spec_after_set_start_velocity(velocity).spec_after_set_start_velocity(velocity)
            == seg.spec_after_set_start_velocity(velocity),
{
    let s1 = seg.spec_after_set_start_velocity(velocity);
    match crate::solver::spec_solve(
        seg.spec_start(),
        seg.spec_end(),
        velocity,
        seg.spec_end_velocity(),
        seg.spec_limits(),
    ) {
        Ok(sol) => {
            seg.lemma_with_start_velocity_solution(velocity, sol);
            s1.lemma_with_start_velocity_solution(velocity, sol);
            TrajectorySegment::lemma_ext(s1.with_start_velocity_solution(velocity, sol), s1);
        },
        Err(e) => {},
    }
}

/// Setting the end velocity twice to the same value gives a state
/// identical, bit for bit, to setting it once.
pub proof fn lemma_set_end_velocity_idempotent(seg: TrajectorySegment, velocity: Rat)
    ensures
        seg.spec_after_set_end_velocity(velocity).spec_after_set_end_velocity(velocity)
            == seg.spec_after_set_end_velocity(velocity),
{
    let s1 = seg.spec_after_set_end_velocity(velocity);
    match crate::solver::spec_solve(
        seg.spec_start(),
        seg.spec_end(),
        seg.spec_start_velocity(),
        velocity,
        seg.spec_limits(),
    ) {
        Ok(sol) => {
            seg.lemma_with_end_velocity_solution(velocity, sol);
            s1.lemma_with_end_velocity_solution(velocity, sol);
            TrajectorySegment::lemma_ext(s1.with_end_velocity_solution(velocity, sol), s1);
        },
        Err(e) => {},
    }
}

} // verus!
