use symbolic_regression::Equation;

fn term(coeff: f32, exp: f32) -> Equation {
    Equation::Term(coeff.to_bits(), exp.to_bits())
}

fn boxed(e: Equation) -> Box<Equation> {
    Box::new(e)
}

fn sum(l: Equation, r: Equation) -> Equation {
    Equation::Add(boxed(l), boxed(r))
}

fn product(l: Equation, r: Equation) -> Equation {
    Equation::Multiply(boxed(l), boxed(r))
}

fn all_outcomes(a: &Box<Equation>, b: &Box<Equation>) -> Vec<Equation> {
    let mut v = Vec::new();
    for first in [false, true] {
        for second in [false, true] {
            for third in [false, true] {
                v.push(*Equation::crossover_with(a, b, first, second, third));
            }
        }
    }
    v
}

#[test]
fn crossover_of_two_terms_swaps_coefficient_and_exponent() {
    let a = boxed(term(3.0, 2.0));
    let b = boxed(term(4.0, 5.0));
    assert_eq!(*Equation::crossover_with(&a, &b, true, false, false), term(4.0, 2.0));
    assert_eq!(*Equation::crossover_with(&a, &b, false, true, true), term(3.0, 5.0));
}

#[test]
fn crossover_puts_the_term_into_a_side_of_the_other() {
    let t = boxed(term(3.0, 2.0));
    let e = boxed(sum(term(4.0, 5.0), product(term(6.0, 7.0), term(2.0, 1.0))));
    let left = sum(term(3.0, 2.0), product(term(6.0, 7.0), term(2.0, 1.0)));
    let right = sum(term(4.0, 5.0), term(3.0, 2.0));
    assert_eq!(*Equation::crossover_with(&t, &e, true, false, false), left);
    assert_eq!(*Equation::crossover_with(&t, &e, false, true, true), right);
    assert_eq!(*Equation::crossover_with(&e, &t, true, false, false), left);
    assert_eq!(*Equation::crossover_with(&e, &t, false, false, true), right);
}

#[test]
fn crossover_of_two_operations_swaps_sides() {
    // 3x + (4x^2 + 6) and (7x^8 - 9) - 6x^5
    let a = boxed(sum(term(3.0, 1.0), sum(term(4.0, 2.0), term(6.0, 0.0))));
    let b = boxed(Equation::Subtract(
        boxed(Equation::Subtract(boxed(term(7.0, 8.0)), boxed(term(9.0, 0.0)))),
        boxed(term(6.0, 5.0)),
    ));
    // `a` changed, its right side replaced by the left side of `b`.
    assert_eq!(
        *Equation::crossover_with(&a, &b, true, false, true),
        sum(term(3.0, 1.0), Equation::Subtract(boxed(term(7.0, 8.0)), boxed(term(9.0, 0.0))))
    );
    // `a` changed, its right side replaced by the right side of `b`.
    assert_eq!(
        *Equation::crossover_with(&a, &b, true, false, false),
        sum(term(3.0, 1.0), term(6.0, 5.0))
    );
    // `b` changed, its left side replaced by the right side of `a`.
    assert_eq!(
        *Equation::crossover_with(&a, &b, false, true, false),
        Equation::Subtract(boxed(sum(term(4.0, 2.0), term(6.0, 0.0))), boxed(term(6.0, 5.0)))
    );
    // `b` changed, its left side replaced by the left side of `a`.
    assert_eq!(
        *Equation::crossover_with(&a, &b, false, true, true),
        Equation::Subtract(boxed(term(3.0, 1.0)), boxed(term(6.0, 5.0)))
    );
}

#[test]
fn random_crossover_is_one_of_the_outcomes() {
    let pairs = [
        (term(3.0, 2.0), term(4.0, 5.0)),
        (term(3.0, 2.0), sum(term(1.0, 1.0), term(2.0, 2.0))),
        (product(term(1.0, 1.0), term(2.0, 2.0)), term(8.0, 0.0)),
        (sum(term(1.0, 1.0), product(term(5.0, 2.0), term(2.0, 2.0))), product(term(7.0, 3.0), term(8.0, 0.0))),
    ];
    for (a, b) in pairs {
        let (a, b) = (boxed(a), boxed(b));
        let outcomes = all_outcomes(&a, &b);
        for _ in 0..50 {
            let child = Equation::crossover(&a, &b);
            assert!(outcomes.contains(&child));
        }
    }
}

#[test]
fn crossover_is_no_deeper_than_its_parents() {
    let a = boxed(sum(term(1.0, 1.0), product(term(5.0, 2.0), sum(term(2.0, 2.0), term(3.0, 3.0)))));
    let b = boxed(product(term(7.0, 3.0), term(8.0, 0.0)));
    let bound = a.depth(0).max(b.depth(0));
    for child in all_outcomes(&a, &b) {
        assert!(child.depth(0) <= bound);
    }
}

#[test]
fn crossover_is_a_term_only_of_two_terms() {
    let t = boxed(term(1.0, 2.0));
    let e = boxed(sum(term(1.0, 1.0), term(2.0, 2.0)));
    assert!(all_outcomes(&t, &t).iter().all(|c| c.lhs_rhs().is_none()));
    assert!(all_outcomes(&t, &e).iter().all(|c| c.lhs_rhs().is_some()));
    assert!(all_outcomes(&e, &t).iter().all(|c| c.lhs_rhs().is_some()));
    assert!(all_outcomes(&e, &e).iter().all(|c| c.lhs_rhs().is_some()));
}
