//! Exact rational arithmetic over `i128`, the scalar domain of the library.
//!
//! Every quantity the solver works with (positions, velocities, limits,
//! durations) is a [`Rat`]: a numerator over a positive denominator, kept
//! fully reduced.  All operations are exact; an operation whose exact result
//! cannot be represented (an intermediate product leaves the `i128` range)
//! reports `None` instead of silently losing precision, playing the role
//! that non-finite values play in floating-point arithmetic.
//!
//! Contracts speak of values through integer pairs `(numerator, denominator)`
//! and the cross-multiplied relations [`veq`], [`vle`], [`vlt`]: two pairs
//! denote the same rational exactly when `a.0 * b.1 == b.0 * a.1`.

use vstd::arithmetic::div_mod::{
    lemma_div_nonincreasing, lemma_fundamental_div_mod, lemma_fundamental_div_mod_converse,
    lemma_mod_multiples_basic, lemma_mod_self_0, lemma_small_mod,
};
use vstd::prelude::*;

verus! {

/// Value equality of two numerator/denominator pairs (cross multiplication).
pub open spec fn veq(a: (int, int), b: (int, int)) -> bool {
    a.0 * b.1 == b.0 * a.1
}

/// Value ordering `a <= b` of two pairs; meaningful when both denominators
/// are positive.
pub open spec fn vle(a: (int, int), b: (int, int)) -> bool {
    a.0 * b.1 <= b.0 * a.1
}

/// Value ordering `a < b` of two pairs; meaningful when both denominators
/// are positive.
pub open spec fn vlt(a: (int, int), b: (int, int)) -> bool {
    a.0 * b.1 < b.0 * a.1
}

/// Exact sum of two pairs.
pub open spec fn vadd(a: (int, int), b: (int, int)) -> (int, int) {
    (a.0 * b.1 + b.0 * a.1, a.1 * b.1)
}

/// Exact difference of two pairs.
pub open spec fn vsub(a: (int, int), b: (int, int)) -> (int, int) {
    (a.0 * b.1 - b.0 * a.1, a.1 * b.1)
}

/// Exact product of two pairs.
pub open spec fn vmul(a: (int, int), b: (int, int)) -> (int, int) {
    (a.0 * b.0, a.1 * b.1)
}

/// Exact quotient of two pairs (the divisor's numerator becomes the
/// denominator; the result's denominator may be negative, which [`veq`]
/// tolerates).
pub open spec fn vdiv(a: (int, int), b: (int, int)) -> (int, int) {
    (a.0 * b.1, a.1 * b.0)
}

/// Exact negation of a pair.
pub open spec fn vneg(a: (int, int)) -> (int, int) {
    (-a.0, a.1)
}

/// Magnitude of an integer, as a natural number.
pub open spec fn iabs(x: int) -> nat {
    if x >= 0 {
        x as nat
    } else {
        (-x) as nat
    }
}

/// The numerators and intermediate products the executable code can hold.
/// `i128::MIN` is excluded so that every representable value can be negated.
pub open spec fn in_rng(x: int) -> bool {
    i128::MIN < x <= i128::MAX
}

/// Greatest common divisor, by Euclid's algorithm.
pub closed spec fn gcd(a: nat, b: nat) -> nat
    decreases b,
{
    if b == 0 {
        a
    } else {
        gcd(b, a % b)
    }
}

/// `gcd(a, b)` is positive and divides both arguments whenever at least one
/// of them is positive.
proof fn lemma_gcd_divides(a: nat, b: nat)
    requires
        a > 0 || b > 0,
    ensures
        gcd(a, b) > 0,
        a % gcd(a, b) == 0,
        b % gcd(a, b) == 0,
    decreases b,
{
    if b == 0 {
        assert(gcd(a, b) == a);
        lemma_mod_self_0(a as int);
        lemma_small_mod(0nat, a);
    } else {
        lemma_gcd_divides(b, a % b);
        let g = gcd(b, a % b);
        assert(gcd(a, b) == g);
        lemma_fundamental_div_mod(a as int, b as int);
        lemma_fundamental_div_mod(b as int, g as int);
        lemma_fundamental_div_mod((a % b) as int, g as int);
        let qb = b as int / g as int;
        let qr = (a % b) as int / g as int;
        let qa = a as int / b as int;
        assert(a as int == (qa * qb + qr) * g as int) by (nonlinear_arith)
            requires
                a as int == b as int * qa + (a % b) as int,
                b as int == g as int * qb,
                (a % b) as int == g as int * qr,
        ;
        lemma_mod_multiples_basic(qa * qb + qr, g as int);
    }
}

/// An exact rational number: a numerator over a positive denominator, kept
/// fully reduced.
#[derive(Clone, Copy, Debug, PartialEq, Eq, Structural)]
pub struct Rat {
    n: i128,
    d: i128,
}

/// Spec-level constructor, the name contracts use to pin down results
/// exactly.
pub closed spec fn spec_rat(n: int, d: int) -> Rat {
    Rat { n: n as i128, d: d as i128 }
}

/// The reduced form of `n / d`: both components divided by their greatest
/// common divisor.
pub open spec fn spec_norm(n: int, d: int) -> Rat {
    let g = gcd(iabs(n), iabs(d)) as int;
    spec_rat(n / g, d / g)
}

/// Exact negation.
pub open spec fn spec_neg(a: Rat) -> Rat {
    spec_rat(-a.num(), a.den())
}

/// Exact magnitude.
pub open spec fn spec_abs(a: Rat) -> Rat {
    spec_rat(iabs(a.num()) as int, a.den())
}

impl Rat {
    /// The numerator.
    pub closed spec fn num(self) -> int {
        self.n as int
    }

    /// The (positive) denominator.
    pub closed spec fn den(self) -> int {
        self.d as int
    }

    /// The value as a numerator/denominator pair, for [`veq`] and friends.
    pub open spec fn v(self) -> (int, int) {
        (self.num(), self.den())
    }

    /// Every reachable `Rat` has a positive denominator and a negatable
    /// numerator; executable code obtains these facts with
    /// `use_type_invariant`.
    #[verifier::type_invariant]
    pub open spec fn inv(self) -> bool {
        1 <= self.den() && i128::MIN < self.num()
    }

    /// Read the numerator.
    pub fn numerator(self) -> (r: i128)
        ensures
            r as int == self.num(),
    {
        self.n
    }

    /// Read the denominator.
    pub fn denominator(self) -> (r: i128)
        ensures
            r as int == self.den(),
    {
        self.d
    }

    /// The integer `i` as a rational.
    pub fn from_int(i: i64) -> (r: Rat)
        ensures
            r == spec_rat(i as int, 1),
            r.num() == i as int,
            r.den() == 1,
    {
        Rat { n: i as i128, d: 1 }
    }

    /// One half, the coefficient of the second-order term of uniformly
    /// accelerated motion.
    pub fn half() -> (r: Rat)
        ensures
            r == spec_rat(1, 2),
            r.num() == 1,
            r.den() == 2,
    {
        Rat { n: 1, d: 2 }
    }

    /// The reduced rational `n / d`; `None` exactly when `d < 1`.
    pub fn ratio(n: i64, d: i64) -> (r: Option<Rat>)
        ensures
            r == spec_ratio(n as int, d as int),
            r is Some <==> 1 <= d,
            r matches Some(c) ==> veq(c.v(), (n as int, d as int)) && 1 <= c.den(),
    {
        if d < 1 {
            None
        } else {
            Some(norm(n as i128, d as i128))
        }
    }

    /// Exact negation; never fails.
    pub fn neg(self) -> (r: Rat)
        ensures
            r == spec_neg(self),
            r.num() == -self.num(),
            r.den() == self.den(),
    {
        proof {
            use_type_invariant(self);
        }
        Rat { n: -self.n, d: self.d }
    }

    /// Exact magnitude; never fails.
    pub fn abs(self) -> (r: Rat)
        ensures
            r == spec_abs(self),
            r.num() == iabs(self.num()),
            r.den() == self.den(),
    {
        proof {
            use_type_invariant(self);
        }
        if self.n < 0 {
            Rat { n: -self.n, d: self.d }
        } else {
            Rat { n: self.n, d: self.d }
        }
    }

    /// Whether the value is `>= 0`; the sign of the value is the sign of the
    /// numerator.
    pub fn is_nonneg(self) -> (r: bool)
        ensures
            r == (self.num() >= 0),
    {
        self.n >= 0
    }

    /// Whether the value is `> 0`.
    pub fn is_pos(self) -> (r: bool)
        ensures
            r == (self.num() > 0),
    {
        self.n > 0
    }

    /// Whether the value is exactly zero.
    pub fn is_zero(self) -> (r: bool)
        ensures
            r == (self.num() == 0),
    {
        self.n == 0
    }

    /// Exact sum; `None` exactly when an intermediate product leaves the
    /// representable range.
    pub fn checked_add(self, o: Rat) -> (r: Option<Rat>)
        ensures
            r == spec_add(self, o),
            r matches Some(c) ==> veq(c.v(), vadd(self.v(), o.v())) && 1 <= c.den(),
    {
        proof {
            use_type_invariant(self);
            use_type_invariant(o);
        }
        let n1: i128 = match mul_rng(self.n, o.d) {
            Some(x) => x,
            None => return None,
        };
        let n2: i128 = match mul_rng(o.n, self.d) {
            Some(x) => x,
            None => return None,
        };
        let nn: i128 = match add_rng(n1, n2) {
            Some(x) => x,
            None => return None,
        };
        let dd: i128 = match mul_rng(self.d, o.d) {
            Some(x) => x,
            None => return None,
        };
        proof {
            assert(1 <= dd as int) by (nonlinear_arith)
                requires
                    dd as int == self.den() * o.den(),
                    1 <= self.den(),
                    1 <= o.den(),
            ;
        }
        Some(norm(nn, dd))
    }

    /// Exact difference; `None` exactly on range overflow.
    pub fn checked_sub(self, o: Rat) -> (r: Option<Rat>)
        ensures
            r == spec_sub(self, o),
            r matches Some(c) ==> veq(c.v(), vsub(self.v(), o.v())) && 1 <= c.den(),
    {
        let m = o.neg();
        let r = self.checked_add(m);
        proof {
            match r {
                Some(c) => {
                    assert(veq(c.v(), vsub(self.v(), o.v()))) by (nonlinear_arith)
                        requires
                            veq(c.v(), vadd(self.v(), m.v())),
                            m.num() == -o.num(),
                            m.den() == o.den(),
                    ;
                },
                None => {},
            }
        }
        r
    }

    /// Exact product; `None` exactly on range overflow.
    pub fn checked_mul(self, o: Rat) -> (r: Option<Rat>)
        ensures
            r == spec_mul(self, o),
            r matches Some(c) ==> veq(c.v(), vmul(self.v(), o.v())) && 1 <= c.den(),
    {
        proof {
            use_type_invariant(self);
            use_type_invariant(o);
        }
        let nn: i128 = match mul_rng(self.n, o.n) {
            Some(x) => x,
            None => return None,
        };
        let dd: i128 = match mul_rng(self.d, o.d) {
            Some(x) => x,
            None => return None,
        };
        proof {
            assert(1 <= dd as int) by (nonlinear_arith)
                requires
                    dd as int == self.den() * o.den(),
                    1 <= self.den(),
                    1 <= o.den(),
            ;
        }
        Some(norm(nn, dd))
    }

    /// Exact quotient; `None` exactly when the divisor is zero or the range
    /// overflows.
    pub fn checked_div(self, o: Rat) -> (r: Option<Rat>)
        ensures
            r == spec_div(self, o),
            r matches Some(c) ==> veq(c.v(), vdiv(self.v(), o.v())) && 1 <= c.den(),
    {
        proof {
            use_type_invariant(self);
            use_type_invariant(o);
        }
        if o.n == 0 {
            return None;
        }
        let t: i128 = match mul_rng(self.n, o.d) {
            Some(x) => x,
            None => return None,
        };
        let nn: i128 = if o.n < 0 {
            -t
        } else {
            t
        };
        let dd: i128 = if o.n < 0 {
            match mul_rng(self.d, -o.n) {
                Some(x) => x,
                None => return None,
            }
        } else {
            match mul_rng(self.d, o.n) {
                Some(x) => x,
                None => return None,
            }
        };
        proof {
            assert(1 <= dd as int) by (nonlinear_arith)
                requires
                    1 <= self.den(),
                    o.num() != 0,
                    dd as int == (if o.num() < 0 {
                        self.den() * -o.num()
                    } else {
                        self.den() * o.num()
                    }),
            ;
        }
        let c = norm(nn, dd);
        proof {
            assert(c.num() * (self.den() * o.num()) == (self.num() * o.den()) * c.den())
                by (nonlinear_arith)
                requires
                    c.num() * dd as int == nn as int * c.den(),
                    dd as int == (if o.num() < 0 {
                        self.den() * -o.num()
                    } else {
                        self.den() * o.num()
                    }),
                    nn as int == (if o.num() < 0 {
                        -(self.num() * o.den())
                    } else {
                        self.num() * o.den()
                    }),
            ;
        }
        Some(c)
    }

    /// Exact comparison `self <= o`; `None` exactly on range overflow.
    pub fn le(self, o: Rat) -> (r: Option<bool>)
        ensures
            r == spec_le(self, o),
            r matches Some(b) ==> b == vle(self.v(), o.v()),
    {
        proof {
            use_type_invariant(self);
            use_type_invariant(o);
        }
        let x: i128 = match mul_rng(self.n, o.d) {
            Some(v) => v,
            None => return None,
        };
        let y: i128 = match mul_rng(o.n, self.d) {
            Some(v) => v,
            None => return None,
        };
        Some(x <= y)
    }

    /// Exact comparison `self < o`; `None` exactly on range overflow.
    pub fn lt(self, o: Rat) -> (r: Option<bool>)
        ensures
            r == spec_lt(self, o),
            r matches Some(b) ==> b == vlt(self.v(), o.v()),
    {
        proof {
            use_type_invariant(self);
            use_type_invariant(o);
        }
        let x: i128 = match mul_rng(self.n, o.d) {
            Some(v) => v,
            None => return None,
        };
        let y: i128 = match mul_rng(o.n, self.d) {
            Some(v) => v,
            None => return None,
        };
        Some(x < y)
    }

    /// Exact value equality; `None` exactly on range overflow.
    pub fn eq_value(self, o: Rat) -> (r: Option<bool>)
        ensures
            r == spec_eq(self, o),
            r matches Some(b) ==> b == veq(self.v(), o.v()),
    {
        proof {
            use_type_invariant(self);
            use_type_invariant(o);
        }
        let x: i128 = match mul_rng(self.n, o.d) {
            Some(v) => v,
            None => return None,
        };
        let y: i128 = match mul_rng(o.n, self.d) {
            Some(v) => v,
            None => return None,
        };
        Some(x == y)
    }
}

/// The reduced rational `n / d`, or `None` when `d < 1`.
pub open spec fn spec_ratio(n: int, d: int) -> Option<Rat> {
    if 1 <= d {
        Some(spec_norm(n, d))
    } else {
        None
    }
}

/// Mirror of [`Rat::checked_add`].
pub open spec fn spec_add(a: Rat, b: Rat) -> Option<Rat> {
    let n1 = a.num() * b.den();
    let n2 = b.num() * a.den();
    let nn = n1 + n2;
    let dd = a.den() * b.den();
    if in_rng(n1) && in_rng(n2) && in_rng(nn) && in_rng(dd) {
        Some(spec_norm(nn, dd))
    } else {
        None
    }
}

/// Mirror of [`Rat::checked_sub`].
pub open spec fn spec_sub(a: Rat, b: Rat) -> Option<Rat> {
    spec_add(a, spec_neg(b))
}

/// Mirror of [`Rat::checked_mul`].
pub open spec fn spec_mul(a: Rat, b: Rat) -> Option<Rat> {
    let nn = a.num() * b.num();
    let dd = a.den() * b.den();
    if in_rng(nn) && in_rng(dd) {
        Some(spec_norm(nn, dd))
    } else {
        None
    }
}

/// Mirror of [`Rat::checked_div`].
pub open spec fn spec_div(a: Rat, b: Rat) -> Option<Rat> {
    if b.num() == 0 {
        None
    } else {
        let t = a.num() * b.den();
        if !in_rng(t) {
            None
        } else {
            let nn = if b.num() < 0 {
                -t
            } else {
                t
            };
            let dd = if b.num() < 0 {
                a.den() * -b.num()
            } else {
                a.den() * b.num()
            };
            if !in_rng(dd) {
                None
            } else {
                Some(spec_norm(nn, dd))
            }
        }
    }
}

/// Mirror of [`Rat::le`].
pub open spec fn spec_le(a: Rat, b: Rat) -> Option<bool> {
    let x = a.num() * b.den();
    let y = b.num() * a.den();
    if in_rng(x) && in_rng(y) {
        Some(x <= y)
    } else {
        None
    }
}

/// Mirror of [`Rat::lt`].
pub open spec fn spec_lt(a: Rat, b: Rat) -> Option<bool> {
    let x = a.num() * b.den();
    let y = b.num() * a.den();
    if in_rng(x) && in_rng(y) {
        Some(x < y)
    } else {
        None
    }
}

/// Mirror of [`Rat::eq_value`].
pub open spec fn spec_eq(a: Rat, b: Rat) -> Option<bool> {
    let x = a.num() * b.den();
    let y = b.num() * a.den();
    if in_rng(x) && in_rng(y) {
        Some(x == y)
    } else {
        None
    }
}

/// `i128` product restricted to the negatable range.
fn mul_rng(a: i128, b: i128) -> (r: Option<i128>)
    ensures
        r == (if in_rng(a as int * b as int) {
            Some((a as int * b as int) as i128)
        } else {
            None::<i128>
        }),
{
    match a.checked_mul(b) {
        Some(v) => {
            if v == i128::MIN {
                None
            } else {
                Some(v)
            }
        },
        None => None,
    }
}

/// `i128` sum restricted to the negatable range.
fn add_rng(a: i128, b: i128) -> (r: Option<i128>)
    ensures
        r == (if in_rng(a as int + b as int) {
            Some((a as int + b as int) as i128)
        } else {
            None::<i128>
        }),
{
    match a.checked_add(b) {
        Some(v) => {
            if v == i128::MIN {
                None
            } else {
                Some(v)
            }
        },
        None => None,
    }
}

/// Euclid's algorithm on machine words.
fn gcd_exec(a: u128, b: u128) -> (g: u128)
    ensures
        g as nat == gcd(a as nat, b as nat),
{
    let mut x: u128 = a;
    let mut y: u128 = b;
    while y != 0
        invariant
            gcd(x as nat, y as nat) == gcd(a as nat, b as nat),
        decreases y,
    {
        let r: u128 = x % y;
        x = y;
        y = r;
    }
    x
}

/// Reduce `n / d` to canonical form.  The result is pinned to [`spec_norm`]
/// and denotes the same value as the input pair.
fn norm(n: i128, d: i128) -> (r: Rat)
    requires
        1 <= d,
        i128::MIN < n,
    ensures
        r == spec_norm(n as int, d as int),
        veq(r.v(), (n as int, d as int)),
        r.num() * (d as int) == (n as int) * r.den(),
        1 <= r.den() <= d,
        r.num() == 0 <==> n == 0,
{
    let neg: bool = n < 0;
    let na: u128 = if neg {
        (-n) as u128
    } else {
        n as u128
    };
    let du: u128 = d as u128;
    let g: u128 = gcd_exec(na, du);
    proof {
        lemma_gcd_divides(na as nat, du as nat);
    }
    let nq: u128 = na / g;
    let dq: u128 = du / g;
    proof {
        lemma_fundamental_div_mod(na as int, g as int);
        lemma_fundamental_div_mod(du as int, g as int);
        lemma_div_nonincreasing(na as int, g as int);
        lemma_div_nonincreasing(du as int, g as int);
        assert(1 <= dq as int) by (nonlinear_arith)
            requires
                du as int == g as int * dq as int,
                1 <= g as int,
                1 <= du as int,
                0 <= dq as int,
        ;
        assert(nq == 0 <==> na == 0) by (nonlinear_arith)
            requires
                na as int == g as int * nq as int,
                1 <= g as int,
                0 <= nq as int,
        ;
    }
    let n2: i128 = if neg {
        -(nq as i128)
    } else {
        nq as i128
    };
    let r = Rat { n: n2, d: dq as i128 };
    proof {
        let gi = g as int;
        let ni = n as int;
        let di = d as int;
        assert(gi == gcd(iabs(ni), iabs(di)));
        assert(di == (dq as int) * gi + 0) by (nonlinear_arith)
            requires
                du as int == gi * dq as int,
                di == du as int,
        ;
        lemma_fundamental_div_mod_converse(di, gi, dq as int, 0);
        if neg {
            assert(ni == (-(nq as int)) * gi + 0) by (nonlinear_arith)
                requires
                    na as int == gi * nq as int,
                    ni == -(na as int),
            ;
            lemma_fundamental_div_mod_converse(ni, gi, -(nq as int), 0);
        } else {
            assert(ni == (nq as int) * gi + 0) by (nonlinear_arith)
                requires
                    na as int == gi * nq as int,
                    ni == na as int,
            ;
            lemma_fundamental_div_mod_converse(ni, gi, nq as int, 0);
        }
        assert(r == spec_norm(ni, di));
        assert(r.num() * di == ni * r.den()) by (nonlinear_arith)
            requires
                na as int == gi * nq as int,
                du as int == gi * dq as int,
                ni == (if neg {
                    -(na as int)
                } else {
                    na as int
                }),
                r.num() == (if neg {
                    -(nq as int)
                } else {
                    nq as int
                }),
                r.den() == dq as int,
                di == du as int,
        ;
    }
    r
}

/// [`veq`] is transitive across a pair with a nonzero denominator.
pub proof fn lemma_veq_trans(a: (int, int), b: (int, int), c: (int, int))
    requires
        veq(a, b),
        veq(b, c),
        b.1 != 0,
    ensures
        veq(a, c),
{
    assert(a.0 * c.1 == c.0 * a.1) by (nonlinear_arith)
        requires
            a.0 * b.1 == b.0 * a.1,
            b.0 * c.1 == c.0 * b.1,
            b.1 != 0,
    ;
}

/// The pair squared componentwise; its value is the square of the value.
pub open spec fn vsq(a: (int, int)) -> (int, int) {
    (a.0 * a.0, a.1 * a.1)
}

/// A product of positive denominators is positive.
pub proof fn lemma_den_pos(x: int, y: int)
    requires
        x >= 1,
        y >= 1,
    ensures
        x * y >= 1,
{
    assert(x * y >= 1) by (nonlinear_arith)
        requires
            x >= 1,
            y >= 1,
    ;
}

/// [`veq`] is compatible with [`vadd`] when the denominators are nonzero.
pub proof fn lemma_vadd_congr(a: (int, int), a2: (int, int), b: (int, int), b2: (int, int))
    requires
        veq(a, a2),
        veq(b, b2),
        a.1 != 0,
        a2.1 != 0,
        b.1 != 0,
        b2.1 != 0,
    ensures
        veq(vadd(a, b), vadd(a2, b2)),
{
    assert((a.0 * b.1) * (a2.1 * b2.1) == (a2.0 * b2.1) * (a.1 * b.1)) by (nonlinear_arith)
        requires
            a.0 * a2.1 == a2.0 * a.1,
    ;
    assert((b.0 * a.1) * (a2.1 * b2.1) == (b2.0 * a2.1) * (a.1 * b.1)) by (nonlinear_arith)
        requires
            b.0 * b2.1 == b2.0 * b.1,
    ;
    assert((a.0 * b.1 + b.0 * a.1) * (a2.1 * b2.1) == (a.0 * b.1) * (a2.1 * b2.1) + (b.0 * a.1)
        * (a2.1 * b2.1)) by (nonlinear_arith);
    assert((a2.0 * b2.1 + b2.0 * a2.1) * (a.1 * b.1) == (a2.0 * b2.1) * (a.1 * b.1) + (b2.0 * a2.1)
        * (a.1 * b.1)) by (nonlinear_arith);
}

/// [`veq`] is compatible with [`vmul`].
pub proof fn lemma_vmul_congr(a: (int, int), a2: (int, int), b: (int, int), b2: (int, int))
    requires
        veq(a, a2),
        veq(b, b2),
    ensures
        veq(vmul(a, b), vmul(a2, b2)),
{
    assert((a.0 * b.0) * (a2.1 * b2.1) == (a2.0 * b2.0) * (a.1 * b.1)) by (nonlinear_arith)
        requires
            a.0 * a2.1 == a2.0 * a.1,
            b.0 * b2.1 == b2.0 * b.1,
    ;
}

/// [`vle`] respects [`veq`] when all denominators are positive.
pub proof fn lemma_vle_congr(a: (int, int), a2: (int, int), b: (int, int), b2: (int, int))
    requires
        veq(a, a2),
        veq(b, b2),
        a.1 >= 1,
        a2.1 >= 1,
        b.1 >= 1,
        b2.1 >= 1,
    ensures
        vle(a, b) == vle(a2, b2),
{
    assert((a.0 * b.1 <= b.0 * a.1) == (a2.0 * b2.1 <= b2.0 * a2.1)) by (nonlinear_arith)
        requires
            a.0 * a2.1 == a2.0 * a.1,
            b.0 * b2.1 == b2.0 * b.1,
            a.1 >= 1,
            a2.1 >= 1,
            b.1 >= 1,
            b2.1 >= 1,
    ;
}

/// [`veq`] is compatible with squaring.
pub proof fn lemma_vsq_congr(a: (int, int), b: (int, int))
    requires
        veq(a, b),
    ensures
        veq(vsq(a), vsq(b)),
{
    assert((a.0 * a.0) * (b.1 * b.1) == (b.0 * b.0) * (a.1 * a.1)) by (nonlinear_arith)
        requires
            a.0 * b.1 == b.0 * a.1,
    ;
}

/// Adding a zero pair does not change the value.
pub proof fn lemma_vadd_zero(x: (int, int), d: int)
    requires
        d >= 1,
        x.1 != 0,
    ensures
        veq(vadd(x, (0int, d)), x),
        veq(vadd((0int, d), x), x),
{
    assert((x.0 * d + 0 * x.1) * x.1 == x.0 * (x.1 * d)) by (nonlinear_arith);
    assert((0 * x.1 + x.0 * d) * x.1 == x.0 * (d * x.1)) by (nonlinear_arith);
}

/// Multiplying by a zero-valued pair gives a zero-valued pair.
pub proof fn lemma_vmul_zero(x: (int, int), z: (int, int))
    requires
        veq(z, (0int, 1int)),
    ensures
        veq(vmul(x, z), (0int, 1int)),
        veq(vmul(z, x), (0int, 1int)),
{
    assert(z.0 == 0);
    assert((x.0 * 0) * 1 == 0 * (x.1 * z.1)) by (nonlinear_arith);
    assert((0 * x.0) * 1 == 0 * (z.1 * x.1)) by (nonlinear_arith);
}

/// From `t == u / k` (as values) it follows that `k * t == u`.
pub proof fn lemma_vdiv_cancel(t: (int, int), u: (int, int), k: (int, int))
    requires
        veq(t, vdiv(u, k)),
    ensures
        veq(vmul(k, t), u),
{
    assert((k.0 * t.0) * u.1 == u.0 * (k.1 * t.1)) by (nonlinear_arith)
        requires
            t.0 * (u.1 * k.0) == (u.0 * k.1) * t.1,
    ;
}

/// A pair with numerator zero denotes zero.
pub proof fn lemma_zero_num(x: (int, int))
    requires
        x.0 == 0,
    ensures
        veq(x, (0int, 1int)),
        veq((0int, 1int), x),
{
    assert(x.0 * 1int == 0int * x.1 && 0int * x.1 == x.0 * 1int) by (nonlinear_arith)
        requires
            x.0 == 0,
    ;
}

/// Multiplication facts with the literals zero and one.
pub proof fn lemma_mul_units(x: int)
    ensures
        0int * x == 0,
        x * 0int == 0,
        1int * x == x,
        x * 1int == x,
{
    assert(0int * x == 0 && x * 0int == 0 && 1int * x == x && x * 1int == x) by (nonlinear_arith);
}

/// [`veq`] between pairs with positive denominators preserves the sign of
/// the numerator.
pub proof fn lemma_veq_sign(a: (int, int), b: (int, int))
    requires
        veq(a, b),
        a.1 >= 1,
        b.1 >= 1,
    ensures
        (a.0 > 0) == (b.0 > 0),
        (a.0 >= 0) == (b.0 >= 0),
        (a.0 == 0) == (b.0 == 0),
{
    assert(((a.0 > 0) == (b.0 > 0)) && ((a.0 >= 0) == (b.0 >= 0)) && ((a.0 == 0) == (b.0 == 0)))
        by (nonlinear_arith)
        requires
            a.0 * b.1 == b.0 * a.1,
            a.1 >= 1,
            b.1 >= 1,
    ;
}

} // verus!
