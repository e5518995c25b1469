use vstd::prelude::*;

verus! {

/// An equation `y = f(x)`.
///
/// The four operation variants join a left-hand side and a right-hand side;
/// `Term(coeff, exp)` is a single term `coeff * x^exp`, each number given by
/// the bit pattern of its `f32` value.
#[derive(Debug, PartialEq, Eq)]
pub enum Equation {
    Add(Box<Equation>, Box<Equation>),
    Subtract(Box<Equation>, Box<Equation>),
    Multiply(Box<Equation>, Box<Equation>),
    Divide(Box<Equation>, Box<Equation>),
    Term(u32, u32),
}

/// The larger of two naturals.
pub open spec fn max_nat(a: nat, b: nat) -> nat {
    if a >= b { a } else { b }
}

impl Equation {
    /// The number of levels of the tree: a term has one level, an operation
    /// one more than the deeper of its two sides.
    pub open spec fn height(self) -> nat
        decreases self,
    {
        match self {
            Equation::Add(l, r) => 1 + max_nat(l.height(), r.height()),
            Equation::Subtract(l, r) => 1 + max_nat(l.height(), r.height()),
            Equation::Multiply(l, r) => 1 + max_nat(l.height(), r.height()),
            Equation::Divide(l, r) => 1 + max_nat(l.height(), r.height()),
            Equation::Term(_, _) => 1,
        }
    }

    /// Determines the maximum depth of this equation, counting from
    /// `current_depth`: a term adds one level, an operation one level plus
    /// the deeper of its sides. Start from `0` to get the plain depth.
    pub fn depth(&self, current_depth: u8) -> (d: u8)
        requires
            current_depth + self.height() <= 255,
        ensures
            d == current_depth + self.height(),
        decreases self,
    {
        match self {
            Equation::Add(lhs, rhs)
            | Equation::Subtract(lhs, rhs)
            | Equation::Multiply(lhs, rhs)
            | Equation::Divide(lhs, rhs) => {
                let a = lhs.depth(current_depth + 1);
                let b = rhs.depth(current_depth + 1);
                if a >= b { a } else { b }
            },
            Equation::Term(_, _) => current_depth + 1,
        }
    }
}

impl Equation {
    /// The depth counted from `current_depth`, as [`Equation::depth`] gives
    /// it, or `None` where it would exceed `255`.
    pub fn checked_depth(&self, current_depth: u8) -> (d: Option<u8>)
        ensures
            d is Some <==> current_depth + self.height() <= 255,
            d matches Some(v) ==> v == current_depth + self.height(),
        decreases self,
    {
        match self {
            Equation::Add(lhs, rhs)
            | Equation::Subtract(lhs, rhs)
            | Equation::Multiply(lhs, rhs)
            | Equation::Divide(lhs, rhs) => {
                if current_depth == 255 {
                    proof { lemma_height_positive(*self); }
                    return None;
                }
                match (lhs.checked_depth(current_depth + 1), rhs.checked_depth(current_depth + 1)) {
                    (Some(a), Some(b)) => Some(if a >= b { a } else { b }),
                    _ => None,
                }
            },
            Equation::Term(_, _) => if current_depth == 255 { None } else { Some(current_depth + 1) },
        }
    }

    /// The two sides of an operation, or `None` for a term.
    pub open spec fn sides(self) -> Option<(Equation, Equation)> {
        match self {
            Equation::Add(l, r) => Some((*l, *r)),
            Equation::Subtract(l, r) => Some((*l, *r)),
            Equation::Multiply(l, r) => Some((*l, *r)),
            Equation::Divide(l, r) => Some((*l, *r)),
            Equation::Term(_, _) => None,
        }
    }

    /// Produces the single term `(0.0)x^(0.0)`.
    pub fn zero_term() -> (e: Equation)
        ensures
            e == Equation::Term(0, 0),
    {
        Equation::Term(0, 0)
    }

    /// Unifies two equations with one operation: `'+'`, `'-'`, `'*'` or `'/'`
    /// give `lhs + rhs`, `lhs - rhs`, `lhs * rhs` or `lhs / rhs`; any other
    /// character gives the zero term `(0.0)x^(0.0)`.
    pub fn unify_with_op(lhs: Box<Equation>, rhs: Box<Equation>, op: char) -> (e: Box<Equation>)
        ensures
            *e == unified(*lhs, *rhs, op),
    {
        Box::new(
            match op {
                '+' => Equation::Add(lhs, rhs),
                '-' => Equation::Subtract(lhs, rhs),
                '*' => Equation::Multiply(lhs, rhs),
                '/' => Equation::Divide(lhs, rhs),
                _ => Equation::zero_term(),
            },
        )
    }

    /// Separates an operation into its left-hand side and right-hand side;
    /// returns `None` for a term.
    pub fn lhs_rhs(&self) -> (sides: Option<(&Box<Equation>, &Box<Equation>)>)
        ensures
            sides is None <==> self is Term,
            sides matches Some((l, r)) ==> self.sides() == Some((**l, **r)),
    {
        match self {
            Equation::Add(lhs, rhs)
            | Equation::Subtract(lhs, rhs)
            | Equation::Multiply(lhs, rhs)
            | Equation::Divide(lhs, rhs) => Some((lhs, rhs)),
            _ => None,
        }
    }

    /// A copy of this equation, node for node.
    pub fn duplicate(&self) -> (copy: Equation)
        ensures
            copy == *self,
        decreases self,
    {
        match self {
            Equation::Add(l, r) => Equation::Add(Box::new(l.duplicate()), Box::new(r.duplicate())),
            Equation::Subtract(l, r) => Equation::Subtract(
                Box::new(l.duplicate()),
                Box::new(r.duplicate()),
            ),
            Equation::Multiply(l, r) => Equation::Multiply(
                Box::new(l.duplicate()),
                Box::new(r.duplicate()),
            ),
            Equation::Divide(l, r) => Equation::Divide(
                Box::new(l.duplicate()),
                Box::new(r.duplicate()),
            ),
            Equation::Term(c, x) => Equation::Term(*c, *x),
        }
    }

    /// Replaces the equation behind `replaced` with a copy of `replacement`.
    pub fn replace(replaced: &mut Box<Equation>, replacement: &Box<Equation>)
        ensures
            **final(replaced) == **replacement,
    {
        *replaced = Box::new(replacement.duplicate());
    }
}

/// Whether `op` names one of the four operations.
pub open spec fn is_operation(op: char) -> bool {
    op == '+' || op == '-' || op == '*' || op == '/'
}

/// The equation that joins `lhs` and `rhs` with `op`, or the zero term where
/// `op` names no operation.
pub open spec fn unified(lhs: Equation, rhs: Equation, op: char) -> Equation {
    if op == '+' {
        Equation::Add(Box::new(lhs), Box::new(rhs))
    } else if op == '-' {
        Equation::Subtract(Box::new(lhs), Box::new(rhs))
    } else if op == '*' {
        Equation::Multiply(Box::new(lhs), Box::new(rhs))
    } else if op == '/' {
        Equation::Divide(Box::new(lhs), Box::new(rhs))
    } else {
        Equation::Term(0, 0)
    }
}

/// Unifying two equations with an operation and separating the result again
/// gives back the two equations, and the result is one level deeper than the
/// deeper of them; with any other character the result is the zero term,
/// which has no sides.
pub proof fn lemma_unify_then_split(lhs: Equation, rhs: Equation, op: char)
    ensures
        is_operation(op) ==> unified(lhs, rhs, op).sides() == Some((lhs, rhs)),
        is_operation(op) ==> unified(lhs, rhs, op).height() == 1 + max_nat(lhs.height(), rhs.height()),
        !is_operation(op) ==> unified(lhs, rhs, op).sides() is None,
        !is_operation(op) ==> unified(lhs, rhs, op).height() == 1,
{
}

/// Every equation has at least one level, and only terms have exactly one.
pub proof fn lemma_height_positive(e: Equation)
    ensures
        e.height() >= 1,
        e.height() == 1 <==> e is Term,
    decreases e,
{
    match e {
        Equation::Add(l, r) => { lemma_height_positive(*l); lemma_height_positive(*r); },
        Equation::Subtract(l, r) => { lemma_height_positive(*l); lemma_height_positive(*r); },
        Equation::Multiply(l, r) => { lemma_height_positive(*l); lemma_height_positive(*r); },
        Equation::Divide(l, r) => { lemma_height_positive(*l); lemma_height_positive(*r); },
        Equation::Term(_, _) => {},
    }
}

} // verus!

verus! {

/// Whether `a` and `b` are of the same variant (both sums, both
/// differences, both products, both quotients or both terms).
pub open spec fn same_variant(a: Equation, b: Equation) -> bool {
    &&& (a is Add <==> b is Add)
    &&& (a is Subtract <==> b is Subtract)
    &&& (a is Multiply <==> b is Multiply)
    &&& (a is Divide <==> b is Divide)
    &&& (a is Term <==> b is Term)
}

/// The operation character alone decides the variant of the unified
/// equation, whatever the two sides are: `'+'` gives a sum, `'-'` a
/// difference, `'*'` a product and `'/'` a quotient, each with `lhs` on the
/// left and `rhs` on the right; any other character gives the term
/// `Term(0, 0)`.
pub proof fn lemma_unify_variant(lhs: Equation, rhs: Equation, op: char)
    ensures
        op == '+' ==> unified(lhs, rhs, op) is Add,
        op == '-' ==> unified(lhs, rhs, op) is Subtract,
        op == '*' ==> unified(lhs, rhs, op) is Multiply,
        op == '/' ==> unified(lhs, rhs, op) is Divide,
        is_operation(op) ==> unified(lhs, rhs, op).sides() == Some((lhs, rhs)),
        !is_operation(op) ==> unified(lhs, rhs, op) == Equation::Term(0, 0),
        forall|l2: Equation, r2: Equation|
            #![trigger unified(l2, r2, op)]
            is_operation(op) ==> same_variant(unified(lhs, rhs, op), unified(l2, r2, op)),
{
}

/// The sides of each operation are the left-hand and the right-hand
/// equation it was built from, in that order; a term has none.
pub proof fn lemma_sides_of_each_operation(l: Equation, r: Equation, coeff: u32, exp: u32)
    ensures
        Equation::Add(Box::new(l), Box::new(r)).sides() == Some((l, r)),
        Equation::Subtract(Box::new(l), Box::new(r)).sides() == Some((l, r)),
        Equation::Multiply(Box::new(l), Box::new(r)).sides() == Some((l, r)),
        Equation::Divide(Box::new(l), Box::new(r)).sides() == Some((l, r)),
        Equation::Term(coeff, exp).sides() is None,
{
}

/// An operation is exactly one level deeper than the deeper of its sides:
/// deeper than each, and one more than one of them.
pub proof fn lemma_height_of_operation(e: Equation)
    requires
        !(e is Term),
    ensures
        e.height() > e.sides().unwrap().0.height(),
        e.height() > e.sides().unwrap().1.height(),
        e.height() == e.sides().unwrap().0.height() + 1 || e.height() == e.sides().unwrap().1.height() + 1,
{
}

} // verus!
