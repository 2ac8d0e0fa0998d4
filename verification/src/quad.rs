//! Values of the form `a + b·sqrt(s)`, where `a`, `b` and the discriminant
//! `s >= 0` are exact rationals.
//!
//! The triangular ("wedge") profile's peak velocity is the square root of a
//! rational discriminant, so durations and displacements of a wedge live in
//! the quadratic extension of the rationals by that root.  A [`Quad`] stores
//! the two coordinates; the discriminant itself is carried by the solved
//! segment and passed to the operations that need it.
//!
//! Value-level contracts use coordinate pairs (see [`crate::rational`]):
//! a quad value is a pair of rational values, and two quads are equal
//! ([`qveq`]) when both coordinates are.  Coordinatewise equality implies
//! equality of the denoted real numbers for every discriminant.

use crate::rational::{
    lemma_den_pos, lemma_vadd_congr, lemma_veq_sign, lemma_veq_trans, lemma_vle_congr,
    lemma_vmul_congr, lemma_vsq_congr, spec_add, spec_div, spec_le, spec_mul, spec_rat, vadd, vdiv,
    veq, vle, vmul, vsq, vsub, Rat,
};
use vstd::prelude::*;

verus! {

/// The value of a quad, as a pair of rational values.
pub type QuadV = ((int, int), (int, int));

/// Coordinatewise value equality.
pub open spec fn qveq(x: QuadV, y: QuadV) -> bool {
    veq(x.0, y.0) && veq(x.1, y.1)
}

/// Coordinatewise sum.
pub open spec fn qvadd(x: QuadV, y: QuadV) -> QuadV {
    (vadd(x.0, y.0), vadd(x.1, y.1))
}

/// Coordinatewise difference.
pub open spec fn qvsub(x: QuadV, y: QuadV) -> QuadV {
    (vsub(x.0, y.0), vsub(x.1, y.1))
}

/// Product in the extension:
/// `(a1 + b1·r)(a2 + b2·r) == (a1·a2 + b1·b2·s) + (a1·b2 + b1·a2)·r`
/// where `r·r == s`.
pub open spec fn qvmul(x: QuadV, y: QuadV, s: (int, int)) -> QuadV {
    (vadd(vmul(x.0, y.0), vmul(vmul(x.1, y.1), s)), vadd(vmul(x.0, y.1), vmul(x.1, y.0)))
}

/// Product with a plain rational.
pub open spec fn qvscale(k: (int, int), x: QuadV) -> QuadV {
    (vmul(k, x.0), vmul(k, x.1))
}

/// The embedding of a rational value.
pub open spec fn qv_of_rat(a: (int, int)) -> QuadV {
    (a, (0, 1))
}

/// The standard sign test for `a + b·sqrt(s)` being `>= 0`, assuming the
/// denominators are positive and `s >= 0`: when `a` and `b` agree in sign
/// the sign is theirs; otherwise the squares `a*a` and `b*b*s` are compared
/// cross-multiplied.
pub open spec fn qv_nonneg(x: QuadV, s: (int, int)) -> bool {
    let a = x.0;
    let b = x.1;
    if b.0 >= 0 {
        a.0 >= 0 || b.0 * b.0 * s.0 * (a.1 * a.1) >= a.0 * a.0 * (b.1 * b.1 * s.1)
    } else {
        a.0 >= 0 && a.0 * a.0 * (b.1 * b.1 * s.1) >= b.0 * b.0 * s.0 * (a.1 * a.1)
    }
}

/// A value `a + b·sqrt(s)` of the quadratic extension; the discriminant `s`
/// is supplied by context.
#[derive(Clone, Copy, Debug, PartialEq, Eq, Structural)]
pub struct Quad {
    /// The rational coordinate.
    pub a: Rat,
    /// The coefficient of `sqrt(s)`.
    pub b: Rat,
}

/// Mirror of [`Quad::rational`].
pub open spec fn spec_qrat(r: Rat) -> Quad {
    Quad { a: r, b: spec_rat(0, 1) }
}

/// Mirror of [`Quad::qadd`].
pub open spec fn spec_qadd(x: Quad, y: Quad) -> Option<Quad> {
    match (spec_add(x.a, y.a), spec_add(x.b, y.b)) {
        (Some(a), Some(b)) => Some(Quad { a, b }),
        _ => None,
    }
}

/// Mirror of [`Quad::qsub`].
pub open spec fn spec_qsub(x: Quad, y: Quad) -> Option<Quad> {
    spec_qadd(x, spec_qneg(y))
}

/// Mirror of [`Quad::qneg`].
pub open spec fn spec_qneg(x: Quad) -> Quad {
    Quad { a: crate::rational::spec_neg(x.a), b: crate::rational::spec_neg(x.b) }
}

/// Mirror of [`Quad::scale`].
pub open spec fn spec_qscale(k: Rat, x: Quad) -> Option<Quad> {
    match (spec_mul(k, x.a), spec_mul(k, x.b)) {
        (Some(a), Some(b)) => Some(Quad { a, b }),
        _ => None,
    }
}

/// Mirror of [`Quad::div_rat`].
pub open spec fn spec_qdiv_rat(x: Quad, k: Rat) -> Option<Quad> {
    match (spec_div(x.a, k), spec_div(x.b, k)) {
        (Some(a), Some(b)) => Some(Quad { a, b }),
        _ => None,
    }
}

/// Mirror of [`Quad::qmul`].
pub open spec fn spec_qmul(x: Quad, y: Quad, s: Rat) -> Option<Quad> {
    match (spec_mul(x.a, y.a), spec_mul(x.b, y.b), spec_mul(x.a, y.b), spec_mul(x.b, y.a)) {
        (Some(aa), Some(bb), Some(ab), Some(ba)) => match spec_mul(bb, s) {
            Some(bbs) => match (spec_add(aa, bbs), spec_add(ab, ba)) {
                (Some(a), Some(b)) => Some(Quad { a, b }),
                _ => None,
            },
            None => None,
        },
        _ => None,
    }
}

/// Mirror of [`Quad::nonneg`].
pub open spec fn spec_qnonneg(x: Quad, s: Rat) -> Option<bool> {
    if x.b.num() >= 0 && x.a.num() >= 0 {
        Some(true)
    } else if x.b.num() < 0 && x.a.num() < 0 {
        Some(false)
    } else {
        match (spec_mul(x.b, x.b), spec_mul(x.a, x.a)) {
            (Some(bb), Some(aa)) => match spec_mul(bb, s) {
                Some(bbs) => {
                    if x.b.num() >= 0 {
                        spec_le(aa, bbs)
                    } else {
                        spec_le(bbs, aa)
                    }
                },
                None => None,
            },
            _ => None,
        }
    }
}

/// Mirror of [`Quad::eq_rat`].
pub open spec fn spec_qeq_rat(x: Quad, r: Rat) -> Option<bool> {
    match crate::rational::spec_eq(x.a, r) {
        Some(e) => Some(e && x.b.num() == 0),
        None => None,
    }
}

impl Quad {
    /// The value, as a pair of rational values.
    pub open spec fn vv(self) -> QuadV {
        (self.a.v(), self.b.v())
    }

    /// The embedding of a plain rational.
    pub fn rational(r: Rat) -> (q: Quad)
        ensures
            q == spec_qrat(r),
            q.a == r,
            q.b.num() == 0,
            q.b.den() == 1,
    {
        Quad { a: r, b: Rat::from_int(0) }
    }

    /// Coordinatewise sum; `None` exactly on range overflow.
    pub fn qadd(self, o: Quad) -> (r: Option<Quad>)
        ensures
            r == spec_qadd(self, o),
            r matches Some(c) ==> qveq(c.vv(), qvadd(self.vv(), o.vv())) && c.wf_dens(),
    {
        let a = match self.a.checked_add(o.a) {
            Some(x) => x,
            None => return None,
        };
        let b = match self.b.checked_add(o.b) {
            Some(x) => x,
            None => return None,
        };
        Some(Quad { a, b })
    }

    /// Coordinatewise difference; `None` exactly on range overflow.
    pub fn qsub(self, o: Quad) -> (r: Option<Quad>)
        ensures
            r == spec_qsub(self, o),
            r matches Some(c) ==> qveq(c.vv(), qvsub(self.vv(), o.vv())) && c.wf_dens(),
    {
        let a = match self.a.checked_sub(o.a) {
            Some(x) => x,
            None => return None,
        };
        let b = match self.b.checked_sub(o.b) {
            Some(x) => x,
            None => return None,
        };
        Some(Quad { a, b })
    }

    /// Coordinatewise negation; never fails.
    pub fn qneg(self) -> (r: Quad)
        ensures
            r == spec_qneg(self),
            r.a.num() == -self.a.num(),
            r.a.den() == self.a.den(),
            r.b.num() == -self.b.num(),
            r.b.den() == self.b.den(),
    {
        Quad { a: self.a.neg(), b: self.b.neg() }
    }

    /// Product with a plain rational; `None` exactly on range overflow.
    pub fn scale(self, k: Rat) -> (r: Option<Quad>)
        ensures
            r == spec_qscale(k, self),
            r matches Some(c) ==> qveq(c.vv(), qvscale(k.v(), self.vv())) && c.wf_dens(),
    {
        let a = match k.checked_mul(self.a) {
            Some(x) => x,
            None => return None,
        };
        let b = match k.checked_mul(self.b) {
            Some(x) => x,
            None => return None,
        };
        Some(Quad { a, b })
    }

    /// Quotient by a plain rational; `None` exactly when the divisor is zero
    /// or the range overflows.
    pub fn div_rat(self, k: Rat) -> (r: Option<Quad>)
        ensures
            r == spec_qdiv_rat(self, k),
            r matches Some(c) ==> veq(c.a.v(), vdiv(self.a.v(), k.v())) && veq(
                c.b.v(),
                vdiv(self.b.v(), k.v()),
            ) && c.wf_dens(),
    {
        let a = match self.a.checked_div(k) {
            Some(x) => x,
            None => return None,
        };
        let b = match self.b.checked_div(k) {
            Some(x) => x,
            None => return None,
        };
        Some(Quad { a, b })
    }

    /// Product in the extension; `None` exactly on range overflow.
    pub fn qmul(self, o: Quad, s: Rat) -> (r: Option<Quad>)
        ensures
            r == spec_qmul(self, o, s),
            r matches Some(c) ==> qveq(c.vv(), qvmul(self.vv(), o.vv(), s.v())) && c.wf_dens(),
    {
        proof {
            use_type_invariant(self.a);
            use_type_invariant(self.b);
            use_type_invariant(o.a);
            use_type_invariant(o.b);
            use_type_invariant(s);
        }
        let aa = match self.a.checked_mul(o.a) {
            Some(x) => x,
            None => return None,
        };
        let bb = match self.b.checked_mul(o.b) {
            Some(x) => x,
            None => return None,
        };
        let ab = match self.a.checked_mul(o.b) {
            Some(x) => x,
            None => return None,
        };
        let ba = match self.b.checked_mul(o.a) {
            Some(x) => x,
            None => return None,
        };
        let bbs = match bb.checked_mul(s) {
            Some(x) => x,
            None => return None,
        };
        let a = match aa.checked_add(bbs) {
            Some(x) => x,
            None => return None,
        };
        let b = match ab.checked_add(ba) {
            Some(x) => x,
            None => return None,
        };
        proof {
            lemma_den_pos(self.a.den(), o.a.den());
            lemma_den_pos(self.b.den(), o.b.den());
            lemma_den_pos(self.a.den(), o.b.den());
            lemma_den_pos(self.b.den(), o.a.den());
            lemma_den_pos(self.b.den() * o.b.den(), s.den());
            lemma_den_pos(bb.den(), s.den());
            lemma_den_pos(aa.den(), bbs.den());
            lemma_den_pos(ab.den(), ba.den());
            lemma_den_pos(self.a.den() * o.a.den(), self.b.den() * o.b.den() * s.den());
            lemma_den_pos(self.a.den() * o.b.den(), self.b.den() * o.a.den());
            lemma_vmul_congr(bb.v(), vmul(self.b.v(), o.b.v()), s.v(), s.v());
            lemma_veq_trans(bbs.v(), vmul(bb.v(), s.v()), vmul(vmul(self.b.v(), o.b.v()), s.v()));
            lemma_vadd_congr(
                aa.v(),
                vmul(self.a.v(), o.a.v()),
                bbs.v(),
                vmul(vmul(self.b.v(), o.b.v()), s.v()),
            );
            lemma_veq_trans(
                a.v(),
                vadd(aa.v(), bbs.v()),
                vadd(vmul(self.a.v(), o.a.v()), vmul(vmul(self.b.v(), o.b.v()), s.v())),
            );
            lemma_vadd_congr(ab.v(), vmul(self.a.v(), o.b.v()), ba.v(), vmul(self.b.v(), o.a.v()));
            lemma_veq_trans(
                b.v(),
                vadd(ab.v(), ba.v()),
                vadd(vmul(self.a.v(), o.b.v()), vmul(self.b.v(), o.a.v())),
            );
        }
        Some(Quad { a, b })
    }

    /// Whether the denoted value is `>= 0`, by the exact sign test;
    /// `None` exactly on range overflow.
    pub fn nonneg(self, s: Rat) -> (r: Option<bool>)
        ensures
            r == spec_qnonneg(self, s),
            r matches Some(v) ==> v == qv_nonneg(self.vv(), s.v()),
    {
        proof {
            use_type_invariant(self.a);
            use_type_invariant(self.b);
            use_type_invariant(s);
        }
        let bn: bool = self.b.is_nonneg();
        let an: bool = self.a.is_nonneg();
        if bn && an {
            return Some(true);
        }
        if !bn && !an {
            return Some(false);
        }
        let bb = match self.b.checked_mul(self.b) {
            Some(x) => x,
            None => return None,
        };
        let aa = match self.a.checked_mul(self.a) {
            Some(x) => x,
            None => return None,
        };
        let bbs = match bb.checked_mul(s) {
            Some(x) => x,
            None => return None,
        };
        let r = if bn {
            match aa.le(bbs) {
                Some(v) => Some(v),
                None => None,
            }
        } else {
            match bbs.le(aa) {
                Some(v) => Some(v),
                None => None,
            }
        };
        proof {
            match r {
                Some(v) => {
                    lemma_den_pos(self.a.den(), self.a.den());
                    lemma_den_pos(self.b.den(), self.b.den());
                    lemma_den_pos(self.b.den() * self.b.den(), s.den());
                    lemma_den_pos(bb.den(), s.den());
                    lemma_vmul_congr(bb.v(), vmul(self.b.v(), self.b.v()), s.v(), s.v());
                    lemma_veq_trans(
                        bbs.v(),
                        vmul(bb.v(), s.v()),
                        vmul(vmul(self.b.v(), self.b.v()), s.v()),
                    );
                    if bn {
                        lemma_vle_congr(
                            aa.v(),
                            vmul(self.a.v(), self.a.v()),
                            bbs.v(),
                            vmul(vmul(self.b.v(), self.b.v()), s.v()),
                        );
                        assert(vle(
                            vmul(self.a.v(), self.a.v()),
                            vmul(vmul(self.b.v(), self.b.v()), s.v()),
                        ) == (self.b.num() * self.b.num() * s.num() * (self.a.den() * self.a.den())
                            >= self.a.num() * self.a.num() * (self.b.den() * self.b.den()
                                * s.den()))) by (nonlinear_arith);
                    } else {
                        lemma_vle_congr(
                            bbs.v(),
                            vmul(vmul(self.b.v(), self.b.v()), s.v()),
                            aa.v(),
                            vmul(self.a.v(), self.a.v()),
                        );
                        assert(vle(
                            vmul(vmul(self.b.v(), self.b.v()), s.v()),
                            vmul(self.a.v(), self.a.v()),
                        ) == (self.a.num() * self.a.num() * (self.b.den() * self.b.den() * s.den())
                            >= self.b.num() * self.b.num() * s.num() * (self.a.den()
                                * self.a.den()))) by (nonlinear_arith);
                    }
                },
                None => {},
            }
        }
        r
    }

    /// Whether the denoted value equals the plain rational `r`;
    /// `None` exactly on range overflow.  Coordinatewise: the rational
    /// coordinate must equal `r` and the root coefficient must be zero.
    pub fn eq_rat(self, r: Rat) -> (res: Option<bool>)
        ensures
            res == spec_qeq_rat(self, r),
            res matches Some(v) ==> v == (veq(self.a.v(), r.v()) && self.b.num() == 0),
    {
        let e = match self.a.eq_value(r) {
            Some(x) => x,
            None => return None,
        };
        Some(e && self.b.is_zero())
    }

    /// Both coordinate denominators are positive.
    pub open spec fn wf_dens(self) -> bool {
        1 <= self.a.den() && 1 <= self.b.den()
    }
}

/// Both coordinate denominators of a quad value are positive.
pub open spec fn qv_dens_pos(x: QuadV) -> bool {
    x.0.1 >= 1 && x.1.1 >= 1
}

/// The zero quad value.
pub open spec fn qv_zero() -> QuadV {
    ((0int, 1int), (0int, 1int))
}

/// [`qveq`] is transitive across a value with nonzero denominators.
pub proof fn lemma_qveq_trans(x: QuadV, y: QuadV, z: QuadV)
    requires
        qveq(x, y),
        qveq(y, z),
        y.0.1 != 0,
        y.1.1 != 0,
    ensures
        qveq(x, z),
{
    lemma_veq_trans(x.0, y.0, z.0);
    lemma_veq_trans(x.1, y.1, z.1);
}

/// [`qveq`] is compatible with [`qvadd`] and [`qvsub`].
pub proof fn lemma_qvadd_congr(x: QuadV, x2: QuadV, y: QuadV, y2: QuadV)
    requires
        qveq(x, x2),
        qveq(y, y2),
        qv_dens_pos(x),
        qv_dens_pos(x2),
        qv_dens_pos(y),
        qv_dens_pos(y2),
    ensures
        qveq(qvadd(x, y), qvadd(x2, y2)),
        qveq(qvsub(x, y), qvsub(x2, y2)),
        qv_dens_pos(qvadd(x, y)),
        qv_dens_pos(qvsub(x, y)),
        qv_dens_pos(qvadd(x2, y2)),
        qv_dens_pos(qvsub(x2, y2)),
{
    lemma_vadd_congr(x.0, x2.0, y.0, y2.0);
    lemma_vadd_congr(x.1, x2.1, y.1, y2.1);
    assert((-y.0.0) * y2.0.1 == (-y2.0.0) * y.0.1) by (nonlinear_arith)
        requires
            y.0.0 * y2.0.1 == y2.0.0 * y.0.1,
    ;
    assert((-y.1.0) * y2.1.1 == (-y2.1.0) * y.1.1) by (nonlinear_arith)
        requires
            y.1.0 * y2.1.1 == y2.1.0 * y.1.1,
    ;
    lemma_vadd_congr(x.0, x2.0, (-y.0.0, y.0.1), (-y2.0.0, y2.0.1));
    lemma_vadd_congr(x.1, x2.1, (-y.1.0, y.1.1), (-y2.1.0, y2.1.1));
    assert((-y.0.0) * x.0.1 == -(y.0.0 * x.0.1)) by (nonlinear_arith);
    assert((-y.1.0) * x.1.1 == -(y.1.0 * x.1.1)) by (nonlinear_arith);
    assert((-y2.0.0) * x2.0.1 == -(y2.0.0 * x2.0.1)) by (nonlinear_arith);
    assert((-y2.1.0) * x2.1.1 == -(y2.1.0 * x2.1.1)) by (nonlinear_arith);
    lemma_den_pos(x.0.1, y.0.1);
    lemma_den_pos(x.1.1, y.1.1);
    lemma_den_pos(x2.0.1, y2.0.1);
    lemma_den_pos(x2.1.1, y2.1.1);
}

/// [`qveq`] is compatible with [`qvscale`].
pub proof fn lemma_qvscale_congr(k: (int, int), k2: (int, int), x: QuadV, x2: QuadV)
    requires
        veq(k, k2),
        qveq(x, x2),
        k.1 >= 1,
        k2.1 >= 1,
        qv_dens_pos(x),
        qv_dens_pos(x2),
    ensures
        qveq(qvscale(k, x), qvscale(k2, x2)),
        qv_dens_pos(qvscale(k, x)),
        qv_dens_pos(qvscale(k2, x2)),
{
    lemma_vmul_congr(k, k2, x.0, x2.0);
    lemma_vmul_congr(k, k2, x.1, x2.1);
    lemma_den_pos(k.1, x.0.1);
    lemma_den_pos(k.1, x.1.1);
    lemma_den_pos(k2.1, x2.0.1);
    lemma_den_pos(k2.1, x2.1.1);
}

/// [`qveq`] is compatible with [`qvmul`] at a fixed discriminant.
pub proof fn lemma_qvmul_congr(x: QuadV, x2: QuadV, y: QuadV, y2: QuadV, s: (int, int))
    requires
        qveq(x, x2),
        qveq(y, y2),
        qv_dens_pos(x),
        qv_dens_pos(x2),
        qv_dens_pos(y),
        qv_dens_pos(y2),
        s.1 >= 1,
    ensures
        qveq(qvmul(x, y, s), qvmul(x2, y2, s)),
        qv_dens_pos(qvmul(x, y, s)),
        qv_dens_pos(qvmul(x2, y2, s)),
{
    lemma_vmul_congr(x.0, x2.0, y.0, y2.0);
    lemma_vmul_congr(x.1, x2.1, y.1, y2.1);
    lemma_vmul_congr(vmul(x.1, y.1), vmul(x2.1, y2.1), s, s);
    lemma_vmul_congr(x.0, x2.0, y.1, y2.1);
    lemma_vmul_congr(x.1, x2.1, y.0, y2.0);
    lemma_den_pos(x.0.1, y.0.1);
    lemma_den_pos(x.1.1, y.1.1);
    lemma_den_pos(x.1.1 * y.1.1, s.1);
    lemma_den_pos(x2.0.1, y2.0.1);
    lemma_den_pos(x2.1.1, y2.1.1);
    lemma_den_pos(x2.1.1 * y2.1.1, s.1);
    lemma_den_pos(x.0.1, y.1.1);
    lemma_den_pos(x.1.1, y.0.1);
    lemma_den_pos(x2.0.1, y2.1.1);
    lemma_den_pos(x2.1.1, y2.0.1);
    lemma_den_pos(x.0.1 * y.0.1, x.1.1 * y.1.1 * s.1);
    lemma_den_pos(x.0.1 * y.1.1, x.1.1 * y.0.1);
    lemma_den_pos(x2.0.1 * y2.0.1, x2.1.1 * y2.1.1 * s.1);
    lemma_den_pos(x2.0.1 * y2.1.1, x2.1.1 * y2.0.1);
    lemma_vadd_congr(
        vmul(x.0, y.0),
        vmul(x2.0, y2.0),
        vmul(vmul(x.1, y.1), s),
        vmul(vmul(x2.1, y2.1), s),
    );
    lemma_vadd_congr(vmul(x.0, y.1), vmul(x2.0, y2.1), vmul(x.1, y.0), vmul(x2.1, y2.0));
}

/// Multiplying embedded rationals in the extension agrees with multiplying
/// the rationals.
pub proof fn lemma_embed_mul(a: (int, int), b: (int, int), s: (int, int))
    requires
        a.1 >= 1,
        b.1 >= 1,
        s.1 >= 1,
    ensures
        qveq(qvmul(qv_of_rat(a), qv_of_rat(b), s), qv_of_rat(vmul(a, b))),
        qv_dens_pos(qvmul(qv_of_rat(a), qv_of_rat(b), s)),
        qv_dens_pos(qv_of_rat(vmul(a, b))),
{
    let e = qvmul(qv_of_rat(a), qv_of_rat(b), s);
    lemma_den_pos(a.1, b.1);
    lemma_den_pos(a.1 * b.1, s.1);
    crate::rational::lemma_mul_units(s.0);
    crate::rational::lemma_mul_units(s.1);
    crate::rational::lemma_mul_units(a.0);
    crate::rational::lemma_mul_units(a.1);
    crate::rational::lemma_mul_units(b.0);
    crate::rational::lemma_mul_units(b.1);
    crate::rational::lemma_mul_units(a.1 * b.1);
    assert(vmul((0int, 1int), (0int, 1int)) == (0int, 1int));
    assert(vmul((0int, 1int), s) == (0int, s.1));
    assert(e.0 == vadd(vmul(a, b), (0int, s.1)));
    crate::rational::lemma_vadd_zero(vmul(a, b), s.1);
    assert(vmul(a, (0int, 1int)) == (0int, a.1));
    assert(vmul((0int, 1int), b) == (0int, b.1));
    assert(e.1 == (0int * b.1 + 0int * a.1, a.1 * b.1));
    crate::rational::lemma_zero_num(e.1);
    assert(e.0.1 == (a.1 * b.1) * s.1);
}

/// Scaling an embedded rational agrees with multiplying the rationals.
pub proof fn lemma_embed_scale(k: (int, int), x: (int, int))
    requires
        k.1 >= 1,
        x.1 >= 1,
    ensures
        qveq(qvscale(k, qv_of_rat(x)), qv_of_rat(vmul(k, x))),
        qv_dens_pos(qvscale(k, qv_of_rat(x))),
        qv_dens_pos(qv_of_rat(vmul(k, x))),
{
    lemma_den_pos(k.1, x.1);
}

/// Multiplying by the zero quad value gives a zero value.
pub proof fn lemma_qvmul_zero_right(x: QuadV, s: (int, int))
    requires
        qv_dens_pos(x),
        s.1 >= 1,
    ensures
        qveq(qvmul(x, qv_zero(), s), qv_zero()),
        qveq(qv_zero(), qvmul(x, qv_zero(), s)),
        qv_dens_pos(qvmul(x, qv_zero(), s)),
{
    let e = qvmul(x, qv_zero(), s);
    lemma_den_pos(x.0.1, x.1.1);
    lemma_den_pos(x.1.1, s.1);
    lemma_den_pos(x.0.1, x.1.1 * s.1);
    crate::rational::lemma_mul_units(x.0.0);
    crate::rational::lemma_mul_units(x.0.1);
    crate::rational::lemma_mul_units(x.1.0);
    crate::rational::lemma_mul_units(x.1.1);
    crate::rational::lemma_mul_units(s.0);
    crate::rational::lemma_mul_units(s.1);
    crate::rational::lemma_mul_units(x.1.1 * s.1);
    crate::rational::lemma_mul_units(x.0.1 * x.1.1);
    assert(vmul(x.0, (0int, 1int)) == (0int, x.0.1));
    assert(vmul(x.1, (0int, 1int)) == (0int, x.1.1));
    assert(vmul((0int, x.1.1), s) == (0int * s.0, x.1.1 * s.1));
    assert((0int * s.0) * x.0.1 == 0int) by (nonlinear_arith);
    assert(0int * (x.1.1 * s.1) == 0int) by (nonlinear_arith);
    assert(e.0 == (0int * (x.1.1 * s.1) + (0int * s.0) * x.0.1, x.0.1 * (x.1.1 * s.1)));
    crate::rational::lemma_zero_num(e.0);
    assert(0int * x.1.1 == 0int && 0int * x.0.1 == 0int) by (nonlinear_arith);
    assert(e.1 == (0int * x.1.1 + 0int * x.0.1, x.0.1 * x.1.1));
    crate::rational::lemma_zero_num(e.1);
}

/// Subtracting a value from itself gives zero.
pub proof fn lemma_qvsub_self(x: QuadV)
    requires
        qv_dens_pos(x),
    ensures
        qveq(qvsub(x, x), qv_zero()),
        qv_dens_pos(qvsub(x, x)),
{
    lemma_den_pos(x.0.1, x.0.1);
    lemma_den_pos(x.1.1, x.1.1);
    crate::rational::lemma_zero_num(vsub(x.0, x.0));
    crate::rational::lemma_zero_num(vsub(x.1, x.1));
}

/// Adding a zero-valued quad does not change the value.
pub proof fn lemma_qvadd_zero(x: QuadV, z: QuadV)
    requires
        qveq(z, qv_zero()),
        qv_dens_pos(x),
        qv_dens_pos(z),
    ensures
        qveq(qvadd(x, z), x),
        qveq(qvadd(z, x), x),
        qv_dens_pos(qvadd(x, z)),
        qv_dens_pos(qvadd(z, x)),
{
    crate::rational::lemma_mul_units(z.0.1);
    crate::rational::lemma_mul_units(z.1.1);
    crate::rational::lemma_mul_units(z.0.0);
    crate::rational::lemma_mul_units(z.1.0);
    assert(z.0.0 == 0);
    assert(z.1.0 == 0);
    crate::rational::lemma_vadd_zero(x.0, z.0.1);
    crate::rational::lemma_vadd_zero(x.1, z.1.1);
    lemma_den_pos(x.0.1, z.0.1);
    lemma_den_pos(x.1.1, z.1.1);
}

/// Scaling by a zero-valued rational, or scaling a zero-valued quad, gives
/// zero.
pub proof fn lemma_qvscale_zero(k: (int, int), x: QuadV)
    requires
        qv_dens_pos(x),
        k.1 >= 1,
    ensures
        veq(k, (0int, 1int)) ==> qveq(qvscale(k, x), qv_zero()),
        qveq(x, qv_zero()) ==> qveq(qvscale(k, x), qv_zero()),
        qv_dens_pos(qvscale(k, x)),
{
    crate::rational::lemma_mul_units(k.0);
    crate::rational::lemma_mul_units(k.1);
    crate::rational::lemma_mul_units(x.0.0);
    crate::rational::lemma_mul_units(x.0.1);
    crate::rational::lemma_mul_units(x.1.0);
    crate::rational::lemma_mul_units(x.1.1);
    lemma_den_pos(k.1, x.0.1);
    lemma_den_pos(k.1, x.1.1);
    if veq(k, (0int, 1int)) {
        assert(k.0 == 0);
        assert(k.0 * x.0.0 == 0) by (nonlinear_arith)
            requires
                k.0 == 0,
        ;
        assert(k.0 * x.1.0 == 0) by (nonlinear_arith)
            requires
                k.0 == 0,
        ;
        crate::rational::lemma_zero_num(vmul(k, x.0));
        crate::rational::lemma_zero_num(vmul(k, x.1));
    }
    if qveq(x, qv_zero()) {
        assert(x.0.0 == 0);
        assert(x.1.0 == 0);
        assert(k.0 * x.0.0 == 0) by (nonlinear_arith)
            requires
                x.0.0 == 0,
        ;
        assert(k.0 * x.1.0 == 0) by (nonlinear_arith)
            requires
                x.1.0 == 0,
        ;
        crate::rational::lemma_zero_num(vmul(k, x.0));
        crate::rational::lemma_zero_num(vmul(k, x.1));
    }
}

/// `a + (b - a) == b`, over quad values.
pub proof fn lemma_qvadd_sub_cancel(a: QuadV, b: QuadV)
    requires
        qv_dens_pos(a),
        qv_dens_pos(b),
    ensures
        qveq(qvadd(a, qvsub(b, a)), b),
        qv_dens_pos(qvadd(a, qvsub(b, a))),
{
    lemma_vadd_sub_cancel(a.0, b.0);
    lemma_vadd_sub_cancel(a.1, b.1);
    lemma_den_pos(b.0.1, a.0.1);
    lemma_den_pos(a.0.1, b.0.1 * a.0.1);
    lemma_den_pos(b.1.1, a.1.1);
    lemma_den_pos(a.1.1, b.1.1 * a.1.1);
}

/// Componentwise `x + (y - x) == y`.
proof fn lemma_vadd_sub_cancel(x: (int, int), y: (int, int))
    ensures
        veq(vadd(x, vsub(y, x)), y),
{
    assert((x.0 * (y.1 * x.1) + (y.0 * x.1 - x.0 * y.1) * x.1) * y.1 == y.0 * (x.1 * (y.1 * x.1)))
        by (nonlinear_arith);
}

/// Addition of quad values is associative up to [`qveq`].
pub proof fn lemma_qvadd_assoc(a: QuadV, b: QuadV, c: QuadV)
    ensures
        qveq(qvadd(qvadd(a, b), c), qvadd(a, qvadd(b, c))),
{
    lemma_vadd_assoc(a.0, b.0, c.0);
    lemma_vadd_assoc(a.1, b.1, c.1);
}

/// Componentwise associativity of pair addition.
proof fn lemma_vadd_assoc(x: (int, int), y: (int, int), z: (int, int))
    ensures
        veq(vadd(vadd(x, y), z), vadd(x, vadd(y, z))),
{
    assert((x.0 * y.1 + y.0 * x.1) * z.1 == (x.0 * y.1) * z.1 + (y.0 * x.1) * z.1)
        by (nonlinear_arith);
    assert((x.0 * y.1) * z.1 == x.0 * (y.1 * z.1)) by (nonlinear_arith);
    assert((y.0 * x.1) * z.1 == (y.0 * z.1) * x.1) by (nonlinear_arith);
    assert(z.0 * (x.1 * y.1) == (z.0 * y.1) * x.1) by (nonlinear_arith);
    assert((y.0 * z.1 + z.0 * y.1) * x.1 == (y.0 * z.1) * x.1 + (z.0 * y.1) * x.1)
        by (nonlinear_arith);
    assert((x.1 * y.1) * z.1 == x.1 * (y.1 * z.1)) by (nonlinear_arith);
}

/// The sign test [`qv_nonneg`] respects [`qveq`] at a fixed discriminant.
pub proof fn lemma_qv_nonneg_congr(x: QuadV, y: QuadV, s: (int, int))
    requires
        qveq(x, y),
        qv_dens_pos(x),
        qv_dens_pos(y),
        s.1 >= 1,
    ensures
        qv_nonneg(x, s) == qv_nonneg(y, s),
{
    lemma_veq_sign(x.0, y.0);
    lemma_veq_sign(x.1, y.1);
    lemma_vsq_congr(x.0, y.0);
    lemma_vsq_congr(x.1, y.1);
    lemma_vmul_congr(vsq(x.1), vsq(y.1), s, s);
    lemma_den_pos(x.0.1, x.0.1);
    lemma_den_pos(y.0.1, y.0.1);
    lemma_den_pos(x.1.1, x.1.1);
    lemma_den_pos(y.1.1, y.1.1);
    lemma_den_pos(x.1.1 * x.1.1, s.1);
    lemma_den_pos(y.1.1 * y.1.1, s.1);
    lemma_vle_congr(vsq(x.0), vsq(y.0), vmul(vsq(x.1), s), vmul(vsq(y.1), s));
    lemma_vle_congr(vmul(vsq(x.1), s), vmul(vsq(y.1), s), vsq(x.0), vsq(y.0));
    assert(vle(vsq(x.0), vmul(vsq(x.1), s)) == (x.0.0 * x.0.0 * (x.1.1 * x.1.1 * s.1) <= x.1.0
        * x.1.0 * s.0 * (x.0.1 * x.0.1))) by (nonlinear_arith);
    assert(vle(vsq(y.0), vmul(vsq(y.1), s)) == (y.0.0 * y.0.0 * (y.1.1 * y.1.1 * s.1) <= y.1.0
        * y.1.0 * s.0 * (y.0.1 * y.0.1))) by (nonlinear_arith);
    assert(vle(vmul(vsq(x.1), s), vsq(x.0)) == (x.1.0 * x.1.0 * s.0 * (x.0.1 * x.0.1) <= x.0.0
        * x.0.0 * (x.1.1 * x.1.1 * s.1))) by (nonlinear_arith);
    assert(vle(vmul(vsq(y.1), s), vsq(y.0)) == (y.1.0 * y.1.0 * s.0 * (y.0.1 * y.0.1) <= y.0.0
        * y.0.0 * (y.1.1 * y.1.1 * s.1))) by (nonlinear_arith);
}

} // verus!
