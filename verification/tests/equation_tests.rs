use symbolic_regression::{operation_for, Equation};

fn term(coeff: f32, exp: f32) -> Equation {
    Equation::Term(coeff.to_bits(), exp.to_bits())
}

fn boxed(e: Equation) -> Box<Equation> {
    Box::new(e)
}

#[test]
fn depth_of_a_term_is_one() {
    assert_eq!(term(2.0, 3.0).depth(0), 1);
    assert_eq!(term(2.0, 3.0).depth(7), 8);
}

#[test]
fn depth_counts_the_deeper_side() {
    let inner = Equation::Multiply(boxed(term(1.0, 1.0)), boxed(term(2.0, 2.0)));
    let e = Equation::Add(boxed(term(4.0, 0.0)), boxed(inner));
    assert_eq!(e.depth(0), 3);
    assert_eq!(e.depth(10), 13);
}

#[test]
fn zero_term_is_zero_coefficient_and_exponent() {
    assert_eq!(Equation::zero_term(), term(0.0, 0.0));
}

#[test]
fn unify_with_each_operation() {
    let l = term(1.0, 2.0);
    let r = term(3.0, 4.0);
    assert_eq!(
        *Equation::unify_with_op(boxed(l.duplicate()), boxed(r.duplicate()), '+'),
        Equation::Add(boxed(l.duplicate()), boxed(r.duplicate()))
    );
    assert_eq!(
        *Equation::unify_with_op(boxed(l.duplicate()), boxed(r.duplicate()), '-'),
        Equation::Subtract(boxed(l.duplicate()), boxed(r.duplicate()))
    );
    assert_eq!(
        *Equation::unify_with_op(boxed(l.duplicate()), boxed(r.duplicate()), '*'),
        Equation::Multiply(boxed(l.duplicate()), boxed(r.duplicate()))
    );
    assert_eq!(
        *Equation::unify_with_op(boxed(l.duplicate()), boxed(r.duplicate()), '/'),
        Equation::Divide(boxed(l.duplicate()), boxed(r.duplicate()))
    );
}

#[test]
fn unify_with_unknown_operation_gives_zero_term() {
    let e = Equation::unify_with_op(boxed(term(1.0, 2.0)), boxed(term(3.0, 4.0)), '%');
    assert_eq!(*e, Equation::zero_term());
    assert!(e.lhs_rhs().is_none());
}

#[test]
fn unify_then_split_gives_the_sides_back() {
    let l = term(1.5, 2.0);
    let r = Equation::Add(boxed(term(3.0, 1.0)), boxed(term(4.0, 0.0)));
    let e = Equation::unify_with_op(boxed(l.duplicate()), boxed(r.duplicate()), '*');
    let (a, b) = e.lhs_rhs().unwrap();
    assert_eq!(**a, l);
    assert_eq!(**b, r);
    assert_eq!(e.depth(0), 3);
}

#[test]
fn lhs_rhs_of_a_term_is_none() {
    assert!(term(5.0, 1.0).lhs_rhs().is_none());
}

#[test]
fn lhs_rhs_of_each_operation() {
    for e in [
        Equation::Add(boxed(term(1.0, 1.0)), boxed(term(2.0, 2.0))),
        Equation::Subtract(boxed(term(1.0, 1.0)), boxed(term(2.0, 2.0))),
        Equation::Multiply(boxed(term(1.0, 1.0)), boxed(term(2.0, 2.0))),
        Equation::Divide(boxed(term(1.0, 1.0)), boxed(term(2.0, 2.0))),
    ] {
        let (l, r) = e.lhs_rhs().unwrap();
        assert_eq!(**l, term(1.0, 1.0));
        assert_eq!(**r, term(2.0, 2.0));
    }
}

#[test]
fn duplicate_is_equal() {
    let e = Equation::Divide(
        boxed(Equation::Subtract(boxed(term(1.0, 2.0)), boxed(term(-3.0, 0.5)))),
        boxed(term(9.0, -1.0)),
    );
    assert_eq!(e.duplicate(), e);
}

#[test]
fn replace_puts_a_copy_in_place() {
    let mut target = boxed(term(1.0, 1.0));
    let replacement = boxed(Equation::Add(boxed(term(2.0, 2.0)), boxed(term(3.0, 3.0))));
    Equation::replace(&mut target, &replacement);
    assert_eq!(target, replacement);
}

#[test]
fn operation_indices() {
    assert_eq!(operation_for(0), '+');
    assert_eq!(operation_for(1), '-');
    assert_eq!(operation_for(2), '*');
    assert_eq!(operation_for(3), '/');
    assert_eq!(operation_for(4), '?');
    assert_eq!(operation_for(255), '?');
}

#[test]
fn random_operation_is_one_of_four() {
    for _ in 0..200 {
        let op = Equation::random_operation();
        assert!(matches!(op, '+' | '-' | '*' | '/'));
        let e = Equation::unify_with_op(boxed(term(1.0, 1.0)), boxed(term(2.0, 2.0)), op);
        assert!(e.lhs_rhs().is_some());
    }
}

fn chain(levels: usize) -> Equation {
    let mut e = term(1.0, 1.0);
    for _ in 1..levels {
        e = Equation::Add(boxed(e), boxed(term(2.0, 2.0)));
    }
    e
}

#[test]
fn checked_depth_agrees_with_depth() {
    let e = chain(7);
    assert_eq!(e.checked_depth(0), Some(e.depth(0)));
    assert_eq!(e.checked_depth(0), Some(7));
    assert_eq!(e.checked_depth(248), Some(255));
    assert_eq!(e.checked_depth(249), None);
}

#[test]
fn checked_depth_refuses_more_than_255_levels() {
    assert_eq!(chain(255).checked_depth(0), Some(255));
    assert_eq!(chain(256).checked_depth(0), None);
    assert_eq!(term(1.0, 1.0).checked_depth(255), None);
}
