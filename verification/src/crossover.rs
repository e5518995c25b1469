use vstd::prelude::*;

use crate::chance::draw_ratio;
use crate::equation::{lemma_height_positive, max_nat, same_variant, Equation};

verus! {

impl Equation {
    /// The same operation with its left-hand side replaced by `side`;
    /// a term is left as it is.
    pub open spec fn with_lhs(self, side: Equation) -> Equation {
        match self {
            Equation::Add(_, r) => Equation::Add(Box::new(side), r),
            Equation::Subtract(_, r) => Equation::Subtract(Box::new(side), r),
            Equation::Multiply(_, r) => Equation::Multiply(Box::new(side), r),
            Equation::Divide(_, r) => Equation::Divide(Box::new(side), r),
            Equation::Term(c, x) => Equation::Term(c, x),
        }
    }

    /// The same operation with its right-hand side replaced by `side`;
    /// a term is left as it is.
    pub open spec fn with_rhs(self, side: Equation) -> Equation {
        match self {
            Equation::Add(l, _) => Equation::Add(l, Box::new(side)),
            Equation::Subtract(l, _) => Equation::Subtract(l, Box::new(side)),
            Equation::Multiply(l, _) => Equation::Multiply(l, Box::new(side)),
            Equation::Divide(l, _) => Equation::Divide(l, Box::new(side)),
            Equation::Term(c, x) => Equation::Term(c, x),
        }
    }

    /// The coefficients of all terms of the equation.
    pub open spec fn coefficients(self) -> Set<u32>
        decreases self,
    {
        match self {
            Equation::Add(l, r) => l.coefficients() + r.coefficients(),
            Equation::Subtract(l, r) => l.coefficients() + r.coefficients(),
            Equation::Multiply(l, r) => l.coefficients() + r.coefficients(),
            Equation::Divide(l, r) => l.coefficients() + r.coefficients(),
            Equation::Term(c, _) => set![c],
        }
    }

    /// The exponents of all terms of the equation.
    pub open spec fn exponents(self) -> Set<u32>
        decreases self,
    {
        match self {
            Equation::Add(l, r) => l.exponents() + r.exponents(),
            Equation::Subtract(l, r) => l.exponents() + r.exponents(),
            Equation::Multiply(l, r) => l.exponents() + r.exponents(),
            Equation::Divide(l, r) => l.exponents() + r.exponents(),
            Equation::Term(_, x) => set![x],
        }
    }
}

/// The crossover of `eqn` and `other` for the given outcomes of the three
/// fair coins, drawn in this order:
/// * both terms: the first coin says whether the coefficient comes from
///   `other` and the exponent from `eqn` (heads) or the other way round;
/// * exactly one term: the term replaces a side of the other equation, the
///   left-hand side on heads of the first coin, else the right-hand side;
/// * no term: the first coin picks the equation that is changed (`eqn` on
///   heads, `other` on tails), the second the side of it that is replaced
///   (left on heads), the third the side of the other equation that takes
///   its place (left on heads).
pub open spec fn crossed(eqn: Equation, other: Equation, first: bool, second: bool, third: bool) -> Equation {
    match (eqn, other) {
        (Equation::Term(c1, x1), Equation::Term(c2, x2)) => {
            if first { Equation::Term(c2, x1) } else { Equation::Term(c1, x2) }
        },
        (Equation::Term(_, _), _) => {
            if first { other.with_lhs(eqn) } else { other.with_rhs(eqn) }
        },
        (_, Equation::Term(_, _)) => {
            if first { eqn.with_lhs(other) } else { eqn.with_rhs(other) }
        },
        _ => {
            let (base, donor) = if first { (eqn, other) } else { (other, eqn) };
            let piece = if third { donor.sides().unwrap().0 } else { donor.sides().unwrap().1 };
            if second { base.with_lhs(piece) } else { base.with_rhs(piece) }
        },
    }
}

/// The operation `base` with one side, the left-hand one if `lhs`, replaced
/// by `side`.
fn with_side(base: Equation, side: Box<Equation>, lhs: bool) -> (e: Equation)
    requires
        !(base is Term),
    ensures
        lhs ==> e == base.with_lhs(*side),
        !lhs ==> e == base.with_rhs(*side),
{
    match base {
        Equation::Add(l, r) => if lhs { Equation::Add(side, r) } else { Equation::Add(l, side) },
        Equation::Subtract(l, r) => if lhs {
            Equation::Subtract(side, r)
        } else {
            Equation::Subtract(l, side)
        },
        Equation::Multiply(l, r) => if lhs {
            Equation::Multiply(side, r)
        } else {
            Equation::Multiply(l, side)
        },
        Equation::Divide(l, r) => if lhs { Equation::Divide(side, r) } else { Equation::Divide(l, side) },
        Equation::Term(c, x) => Equation::Term(c, x),
    }
}

impl Equation {
    /// The crossover of `eqn` and `other_eqn` once the three fair coins have
    /// come up `first`, `second` and `third` (see [`crossed`]).
    pub fn crossover_with(
        eqn: &Box<Equation>,
        other_eqn: &Box<Equation>,
        first: bool,
        second: bool,
        third: bool,
    ) -> (child: Box<Equation>)
        ensures
            *child == crossed(**eqn, **other_eqn, first, second, third),
    {
        match (&**eqn, &**other_eqn) {
            (Equation::Term(c1, x1), Equation::Term(c2, x2)) => {
                if first {
                    Box::new(Equation::Term(*c2, *x1))
                } else {
                    Box::new(Equation::Term(*c1, *x2))
                }
            },
            (Equation::Term(_, _), _) => {
                let base = other_eqn.duplicate();
                let side = Box::new(eqn.duplicate());
                Box::new(with_side(base, side, first))
            },
            (_, Equation::Term(_, _)) => {
                let base = eqn.duplicate();
                let side = Box::new(other_eqn.duplicate());
                Box::new(with_side(base, side, first))
            },
            _ => {
                let (base, donor) = if first { (eqn, other_eqn) } else { (other_eqn, eqn) };
                let piece = match donor.lhs_rhs() {
                    Some((l, r)) => if third { l.duplicate() } else { r.duplicate() },
                    None => Equation::zero_term(),
                };
                Box::new(with_side(base.duplicate(), Box::new(piece), second))
            },
        }
    }

    /// Produces a crossover of `eqn` and `other_eqn`:
    /// * if both are terms `(coeff)x^(exp)`, the crossover is a term with the
    ///   coefficient of one and the exponent of the other;
    /// * if exactly one is a term, a random side of the other equation is
    ///   replaced by that term;
    /// * if neither is a term, a random side of one of them is replaced by a
    ///   random side of the other.
    ///
    /// Each random choice is a fair coin.
    pub fn crossover(eqn: &Box<Equation>, other_eqn: &Box<Equation>) -> (child: Box<Equation>)
        ensures
            exists|first: bool, second: bool, third: bool|
                *child == crossed(**eqn, **other_eqn, first, second, third),
    {
        let first = draw_ratio(1, 2);
        let second = draw_ratio(1, 2);
        let third = draw_ratio(1, 2);
        let child = Equation::crossover_with(eqn, other_eqn, first, second, third);
        assert(*child == crossed(**eqn, **other_eqn, first, second, third));
        child
    }
}

/// A crossover is no deeper than the deeper of its two parents.
pub proof fn lemma_crossover_height(
    eqn: Equation,
    other: Equation,
    first: bool,
    second: bool,
    third: bool,
)
    ensures
        crossed(eqn, other, first, second, third).height() <= max_nat(eqn.height(), other.height()),
{
    lemma_height_positive(eqn);
    lemma_height_positive(other);
    match eqn.sides() {
        Some((l, r)) => { lemma_height_positive(l); lemma_height_positive(r); },
        None => {},
    }
    match other.sides() {
        Some((l, r)) => { lemma_height_positive(l); lemma_height_positive(r); },
        None => {},
    }
}

/// The crossover of two parents is a term exactly when both parents are.
pub proof fn lemma_crossover_is_term(
    eqn: Equation,
    other: Equation,
    first: bool,
    second: bool,
    third: bool,
)
    ensures
        crossed(eqn, other, first, second, third) is Term <==> (eqn is Term && other is Term),
{
}

/// Replacing a side of `base` by `side` brings in no coefficient or exponent
/// that neither of them had.
proof fn lemma_with_side_values(base: Equation, side: Equation)
    ensures
        base.with_lhs(side).coefficients().subset_of(base.coefficients() + side.coefficients()),
        base.with_rhs(side).coefficients().subset_of(base.coefficients() + side.coefficients()),
        base.with_lhs(side).exponents().subset_of(base.exponents() + side.exponents()),
        base.with_rhs(side).exponents().subset_of(base.exponents() + side.exponents()),
{
}

/// Every coefficient of a crossover is a coefficient of one of its parents,
/// and every exponent an exponent of one of them.
pub proof fn lemma_crossover_values(
    eqn: Equation,
    other: Equation,
    first: bool,
    second: bool,
    third: bool,
)
    ensures
        crossed(eqn, other, first, second, third).coefficients().subset_of(
            eqn.coefficients() + other.coefficients(),
        ),
        crossed(eqn, other, first, second, third).exponents().subset_of(
            eqn.exponents() + other.exponents(),
        ),
{
    lemma_with_side_values(eqn, other);
    lemma_with_side_values(other, eqn);
    match eqn.sides() {
        Some((l, r)) => {
            lemma_with_side_values(other, l);
            lemma_with_side_values(other, r);
        },
        None => {},
    }
    match other.sides() {
        Some((l, r)) => {
            lemma_with_side_values(eqn, l);
            lemma_with_side_values(eqn, r);
        },
        None => {},
    }
}

} // verus!

verus! {

/// Replacing one side of an operation keeps its variant and its other side
/// in place: the left-hand side replaced by `side` gives the operation of
/// `side` and the old right-hand side, the right-hand side replaced gives
/// the operation of the old left-hand side and `side`.
pub proof fn lemma_replace_one_side(e: Equation, side: Equation)
    requires
        !(e is Term),
    ensures
        same_variant(e.with_lhs(side), e),
        same_variant(e.with_rhs(side), e),
        e.with_lhs(side).sides() == Some((side, e.sides().unwrap().1)),
        e.with_rhs(side).sides() == Some((e.sides().unwrap().0, side)),
{
}

/// The crossover of two terms takes the coefficient of one and the exponent
/// of the other: with `first` the coefficient of `other` and the exponent
/// of `eqn`, else the coefficient of `eqn` and the exponent of `other`.
/// Where the parents differ in both coefficient and exponent, the child is
/// neither parent.
pub proof fn lemma_crossover_of_two_terms(
    c1: u32,
    x1: u32,
    c2: u32,
    x2: u32,
    first: bool,
    second: bool,
    third: bool,
)
    ensures
        first ==> crossed(Equation::Term(c1, x1), Equation::Term(c2, x2), first, second, third)
            == Equation::Term(c2, x1),
        !first ==> crossed(Equation::Term(c1, x1), Equation::Term(c2, x2), first, second, third)
            == Equation::Term(c1, x2),
        c1 != c2 && x1 != x2 ==> crossed(Equation::Term(c1, x1), Equation::Term(c2, x2), first, second, third)
            != Equation::Term(c1, x1),
        c1 != c2 && x1 != x2 ==> crossed(Equation::Term(c1, x1), Equation::Term(c2, x2), first, second, third)
            != Equation::Term(c2, x2),
{
}

/// Where exactly one parent is a term, the child is the other parent, of
/// the same variant, with one side replaced by that term and the other side
/// kept in place: the left-hand side with `first`, else the right-hand side.
pub proof fn lemma_crossover_term_into_operation(
    eqn: Equation,
    other: Equation,
    first: bool,
    second: bool,
    third: bool,
)
    requires
        eqn is Term <==> !(other is Term),
    ensures
        ({
            let (term, op) = if eqn is Term { (eqn, other) } else { (other, eqn) };
            let child = crossed(eqn, other, first, second, third);
            &&& same_variant(child, op)
            &&& first ==> child.sides() == Some((term, op.sides().unwrap().1))
            &&& !first ==> child.sides() == Some((op.sides().unwrap().0, term))
        }),
{
    if eqn is Term {
        lemma_replace_one_side(other, eqn);
    } else {
        lemma_replace_one_side(eqn, other);
    }
}

/// Where neither parent is a term, the child is the parent picked by
/// `first` (`eqn` with it, `other` without), of the same variant, with one
/// side replaced and the other kept in place: the left-hand side with
/// `second`, else the right-hand side. The replacement is a side of the
/// other parent: its left-hand side with `third`, else its right-hand side.
pub proof fn lemma_crossover_of_two_operations(
    eqn: Equation,
    other: Equation,
    first: bool,
    second: bool,
    third: bool,
)
    requires
        !(eqn is Term),
        !(other is Term),
    ensures
        ({
            let (base, donor) = if first { (eqn, other) } else { (other, eqn) };
            let piece = if third { donor.sides().unwrap().0 } else { donor.sides().unwrap().1 };
            let child = crossed(eqn, other, first, second, third);
            &&& same_variant(child, base)
            &&& second ==> child.sides() == Some((piece, base.sides().unwrap().1))
            &&& !second ==> child.sides() == Some((base.sides().unwrap().0, piece))
        }),
{
    let (base, donor) = if first { (eqn, other) } else { (other, eqn) };
    let piece = if third { donor.sides().unwrap().0 } else { donor.sides().unwrap().1 };
    lemma_replace_one_side(base, piece);
}

} // verus!
