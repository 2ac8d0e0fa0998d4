//! Tests of the exact scalar layers: reduced rationals and values of the
//! quadratic extension.

use trajectory_planner::quad::Quad;
use trajectory_planner::rational::Rat;

fn rat(n: i64, d: i64) -> Rat {
    Rat::ratio(n, d).expect("positive denominator")
}

#[test]
fn ratios_are_reduced() {
    assert_eq!(rat(2, 4), rat(1, 2));
    assert_eq!(rat(-10, 15), rat(-2, 3));
    assert_eq!(rat(0, 7), Rat::from_int(0));
    assert_eq!(rat(21, 7), Rat::from_int(3));
}

#[test]
fn nonpositive_denominators_rejected() {
    assert_eq!(Rat::ratio(1, 0), None);
    assert_eq!(Rat::ratio(1, -2), None);
}

#[test]
fn exact_field_operations() {
    let third = rat(1, 3);
    let sixth = rat(1, 6);
    assert_eq!(third.checked_add(sixth).unwrap(), rat(1, 2));
    assert_eq!(third.checked_sub(sixth).unwrap(), sixth);
    assert_eq!(third.checked_mul(sixth).unwrap(), rat(1, 18));
    assert_eq!(third.checked_div(sixth).unwrap(), rat(2, 1));
    assert_eq!(rat(1, 2).checked_div(rat(-1, 4)).unwrap(), rat(-2, 1));
    assert_eq!(rat(3, 4).checked_div(rat(0, 1)), None);
    assert_eq!(rat(-7, 2).neg(), rat(7, 2));
    assert_eq!(rat(-7, 2).abs(), rat(7, 2));
}

#[test]
fn exact_comparisons() {
    assert_eq!(rat(1, 3).le(rat(1, 2)).unwrap(), true);
    assert_eq!(rat(1, 2).le(rat(1, 3)).unwrap(), false);
    assert_eq!(rat(1, 2).le(rat(2, 4)).unwrap(), true);
    assert_eq!(rat(1, 2).lt(rat(2, 4)).unwrap(), false);
    assert_eq!(rat(-1, 2).lt(rat(1, 1_000_000)).unwrap(), true);
    assert_eq!(rat(3, 9).eq_value(rat(1, 3)).unwrap(), true);
    assert!(rat(-5, 7).is_nonneg() == false);
    assert!(rat(5, 7).is_pos());
    assert!(rat(0, 3).is_zero());
}

#[test]
fn overflowing_operations_fail_cleanly() {
    let p = rat(1, 4_611_686_018_427_387_847);
    let q = rat(1, 4_611_686_018_427_387_737);
    // the exact product of the two squares cannot be represented
    let pq = p.checked_mul(q).unwrap();
    assert_eq!(pq.checked_mul(pq), None);
}

#[test]
fn quadratic_extension_arithmetic() {
    // (1 + sqrt(2))^2 == 3 + 2*sqrt(2)
    let s = rat(2, 1);
    let x = Quad { a: rat(1, 1), b: rat(1, 1) };
    assert_eq!(x.qmul(x, s).unwrap(), Quad { a: rat(3, 1), b: rat(2, 1) });
    // (1 + sqrt(2)) + (2 - 3*sqrt(2)) == 3 - 2*sqrt(2)
    let y = Quad { a: rat(2, 1), b: rat(-3, 1) };
    assert_eq!(x.qadd(y).unwrap(), Quad { a: rat(3, 1), b: rat(-2, 1) });
    assert_eq!(x.qsub(y).unwrap(), Quad { a: rat(-1, 1), b: rat(4, 1) });
    assert_eq!(x.scale(rat(3, 2)).unwrap(), Quad { a: rat(3, 2), b: rat(3, 2) });
    assert_eq!(x.div_rat(rat(2, 1)).unwrap(), Quad { a: rat(1, 2), b: rat(1, 2) });
    assert_eq!(x.qneg(), Quad { a: rat(-1, 1), b: rat(-1, 1) });
}

#[test]
fn quadratic_sign_test() {
    let s = rat(2, 1);
    // sqrt(2) - 1 > 0
    assert_eq!(Quad { a: rat(-1, 1), b: rat(1, 1) }.nonneg(s).unwrap(), true);
    // sqrt(2) - 2 < 0
    assert_eq!(Quad { a: rat(-2, 1), b: rat(1, 1) }.nonneg(s).unwrap(), false);
    // 2 - sqrt(2) > 0
    assert_eq!(Quad { a: rat(2, 1), b: rat(-1, 1) }.nonneg(s).unwrap(), true);
    // 1 - sqrt(2) < 0
    assert_eq!(Quad { a: rat(1, 1), b: rat(-1, 1) }.nonneg(s).unwrap(), false);
    // boundary: 2 - sqrt(4) == 0 is nonnegative
    assert_eq!(Quad { a: rat(2, 1), b: rat(-1, 1) }.nonneg(rat(4, 1)).unwrap(), true);
}

#[test]
fn quad_equals_rational() {
    let z = Quad::rational(rat(5, 3));
    assert_eq!(z.eq_rat(rat(5, 3)).unwrap(), true);
    assert_eq!(z.eq_rat(rat(5, 4)).unwrap(), false);
    let w = Quad { a: rat(5, 3), b: rat(1, 9) };
    assert_eq!(w.eq_rat(rat(5, 3)).unwrap(), false);
}
