use vstd::prelude::*;

use crate::equation::Equation;

verus! {

/// A piece of the printed form of an equation: literal text, or a number
/// given by the bit pattern of its `f32` value, to be written in Rust's
/// default decimal form for `f32`.
#[derive(Debug, PartialEq, Eq, Clone, Copy)]
pub enum Fragment {
    Text(&'static str),
    Number(u32),
}

/// Whether the `f32` with these bits equals `0.0` (that is, is `+0.0` or
/// `-0.0`).
pub open spec fn is_zero_bits(bits: u32) -> bool {
    bits == 0 || bits == 0x8000_0000
}

/// Whether the `f32` with these bits equals `1.0`.
pub open spec fn is_one_bits(bits: u32) -> bool {
    bits == 0x3F80_0000
}

/// Whether the `f32` with these bits equals `0.0`.
pub fn is_zero_value(bits: u32) -> (z: bool)
    ensures
        z == is_zero_bits(bits),
{
    bits == 0 || bits == 0x8000_0000
}

/// Whether the `f32` with these bits equals `1.0`.
pub fn is_one_value(bits: u32) -> (o: bool)
    ensures
        o == is_one_bits(bits),
{
    bits == 0x3F80_0000
}

/// The opening and closing bracket of an operation whose depth is `depth`:
/// square brackets up to depth 1, braces at 2, parentheses at 3, and angle
/// brackets deeper than that.
pub open spec fn brackets(depth: nat) -> (&'static str, &'static str) {
    if depth <= 1 {
        ("[", "]")
    } else if depth == 2 {
        ("{", "}")
    } else if depth == 3 {
        ("(", ")")
    } else {
        ("<", ">")
    }
}

/// The brackets for an operation of the given depth (see [`brackets`]).
pub fn bracket_pair(depth: u8) -> (pair: (&'static str, &'static str))
    ensures
        pair == brackets(depth as nat),
{
    if depth <= 1 {
        ("[", "]")
    } else if depth == 2 {
        ("{", "}")
    } else if depth == 3 {
        ("(", ")")
    } else {
        ("<", ">")
    }
}

/// How a term `coeff * x^exp` is printed: `0` when the coefficient is zero,
/// the coefficient alone when the exponent is zero, `<coeff>x` when the
/// exponent is one, and `<coeff>x^<exp>` otherwise.
pub open spec fn term_shown(coeff: u32, exp: u32) -> Seq<Fragment> {
    if is_zero_bits(coeff) {
        seq![Fragment::Text("0")]
    } else if is_zero_bits(exp) {
        seq![Fragment::Number(coeff)]
    } else if is_one_bits(exp) {
        seq![Fragment::Number(coeff), Fragment::Text("x")]
    } else {
        seq![Fragment::Number(coeff), Fragment::Text("x^"), Fragment::Number(exp)]
    }
}

/// An operation printed as `<open><lhs><symbol><rhs><close>`, with the
/// brackets chosen by the depth of the operation.
pub open spec fn bracketed(depth: nat, lhs: Seq<Fragment>, symbol: &'static str, rhs: Seq<Fragment>) -> Seq<Fragment> {
    seq![Fragment::Text(brackets(depth).0)] + lhs + seq![Fragment::Text(symbol)] + rhs + seq![
        Fragment::Text(brackets(depth).1),
    ]
}

/// An operation printed as `[<name>(<lhs>, <rhs>)]`.
pub open spec fn named(opening: &'static str, lhs: Seq<Fragment>, rhs: Seq<Fragment>) -> Seq<Fragment> {
    seq![Fragment::Text(opening)] + lhs + seq![Fragment::Text(", ")] + rhs + seq![Fragment::Text(")]")]
}

impl Equation {
    /// The printed form of the equation, such as `{3x^2 + 4x}` for a sum of
    /// two terms.
    pub open spec fn shown(self) -> Seq<Fragment>
        decreases self,
    {
        match self {
            Equation::Add(l, r) => bracketed(self.height(), l.shown(), " + ", r.shown()),
            Equation::Subtract(l, r) => bracketed(self.height(), l.shown(), " - ", r.shown()),
            Equation::Multiply(l, r) => bracketed(self.height(), l.shown(), " * ", r.shown()),
            Equation::Divide(l, r) => bracketed(self.height(), l.shown(), " / ", r.shown()),
            Equation::Term(c, x) => term_shown(c, x),
        }
    }

    /// The equation written as its variants, such as
    /// `[Add([Term(3, 2)], [Term(4, 1)])]`.
    pub open spec fn variants_shown(self) -> Seq<Fragment>
        decreases self,
    {
        match self {
            Equation::Add(l, r) => named("[Add(", l.variants_shown(), r.variants_shown()),
            Equation::Subtract(l, r) => named("[Subtract(", l.variants_shown(), r.variants_shown()),
            Equation::Multiply(l, r) => named("[Multiply(", l.variants_shown(), r.variants_shown()),
            Equation::Divide(l, r) => named("[Divide(", l.variants_shown(), r.variants_shown()),
            Equation::Term(c, x) => seq![
                Fragment::Text("[Term("),
                Fragment::Number(c),
                Fragment::Text(", "),
                Fragment::Number(x),
                Fragment::Text(")]"),
            ],
        }
    }

    /// Appends the printed form of the equation to `out`.
    fn append_shown(&self, out: &mut Vec<Fragment>)
        requires
            self.height() <= 255,
        ensures
            final(out)@ == old(out)@ + self.shown(),
        decreases *self, 1nat,
    {
        match self {
            Equation::Term(c, x) => {
                if is_zero_value(*c) {
                    out.push(Fragment::Text("0"));
                } else if is_zero_value(*x) {
                    out.push(Fragment::Number(*c));
                } else if is_one_value(*x) {
                    out.push(Fragment::Number(*c));
                    out.push(Fragment::Text("x"));
                } else {
                    out.push(Fragment::Number(*c));
                    out.push(Fragment::Text("x^"));
                    out.push(Fragment::Number(*x));
                }
                assert(out@ =~= old(out)@ + self.shown());
            },
            Equation::Add(l, r) => self.append_operation(l, " + ", r, out),
            Equation::Subtract(l, r) => self.append_operation(l, " - ", r, out),
            Equation::Multiply(l, r) => self.append_operation(l, " * ", r, out),
            Equation::Divide(l, r) => self.append_operation(l, " / ", r, out),
        }
    }

    /// Appends `<open><lhs><symbol><rhs><close>` for this operation to `out`.
    fn append_operation(
        &self,
        lhs: &Equation,
        symbol: &'static str,
        rhs: &Equation,
        out: &mut Vec<Fragment>,
    )
        requires
            self.height() <= 255,
            self.sides() == Some((*lhs, *rhs)),
        ensures
            final(out)@ == old(out)@ + bracketed(self.height(), lhs.shown(), symbol, rhs.shown()),
        decreases *self, 0nat,
    {
        let (open, close) = bracket_pair(self.depth(0));
        out.push(Fragment::Text(open));
        lhs.append_shown(out);
        out.push(Fragment::Text(symbol));
        rhs.append_shown(out);
        out.push(Fragment::Text(close));
        assert(out@ =~= old(out)@ + bracketed(self.height(), lhs.shown(), symbol, rhs.shown()));
    }

    /// Appends the variant form of the equation to `out`.
    fn append_variants(&self, out: &mut Vec<Fragment>)
        ensures
            final(out)@ == old(out)@ + self.variants_shown(),
        decreases self,
    {
        match self {
            Equation::Term(c, x) => {
                out.push(Fragment::Text("[Term("));
                out.push(Fragment::Number(*c));
                out.push(Fragment::Text(", "));
                out.push(Fragment::Number(*x));
                out.push(Fragment::Text(")]"));
                assert(out@ =~= old(out)@ + self.variants_shown());
            },
            Equation::Add(l, r) => {
                out.push(Fragment::Text("[Add("));
                l.append_variants(out);
                out.push(Fragment::Text(", "));
                r.append_variants(out);
                out.push(Fragment::Text(")]"));
                assert(out@ =~= old(out)@ + self.variants_shown());
            },
            Equation::Subtract(l, r) => {
                out.push(Fragment::Text("[Subtract("));
                l.append_variants(out);
                out.push(Fragment::Text(", "));
                r.append_variants(out);
                out.push(Fragment::Text(")]"));
                assert(out@ =~= old(out)@ + self.variants_shown());
            },
            Equation::Multiply(l, r) => {
                out.push(Fragment::Text("[Multiply("));
                l.append_variants(out);
                out.push(Fragment::Text(", "));
                r.append_variants(out);
                out.push(Fragment::Text(")]"));
                assert(out@ =~= old(out)@ + self.variants_shown());
            },
            Equation::Divide(l, r) => {
                out.push(Fragment::Text("[Divide("));
                l.append_variants(out);
                out.push(Fragment::Text(", "));
                r.append_variants(out);
                out.push(Fragment::Text(")]"));
                assert(out@ =~= old(out)@ + self.variants_shown());
            },
        }
    }

    /// The equation written as its variants and the values of its terms,
    /// as fragments of text and numbers: `[Add(<lhs>, <rhs>)]`,
    /// `[Subtract(..)]`, `[Multiply(..)]`, `[Divide(..)]` and
    /// `[Term(<coeff>, <exp>)]`.
    pub fn prnt_eqn_enums(&self) -> (pieces: Vec<Fragment>)
        ensures
            pieces@ == self.variants_shown(),
    {
        let mut out: Vec<Fragment> = Vec::new();
        self.append_variants(&mut out);
        assert(out@ =~= self.variants_shown());
        out
    }

    /// The printed form of the equation, as fragments of text and numbers:
    /// an operation is `lhs <symbol> rhs` inside brackets chosen by its depth
    /// (braces at depth 2, parentheses at 3, angle brackets deeper), and a
    /// term is printed as [`term_shown`] says.
    pub fn display_fragments(&self) -> (pieces: Vec<Fragment>)
        requires
            self.height() <= 255,
        ensures
            pieces@ == self.shown(),
    {
        let mut out: Vec<Fragment> = Vec::new();
        self.append_shown(&mut out);
        assert(out@ =~= self.shown());
        out
    }
}

/// The text that opens the variant form of `e`.
pub open spec fn variant_opening(e: Equation) -> &'static str {
    match e {
        Equation::Add(_, _) => "[Add(",
        Equation::Subtract(_, _) => "[Subtract(",
        Equation::Multiply(_, _) => "[Multiply(",
        Equation::Divide(_, _) => "[Divide(",
        Equation::Term(_, _) => "[Term(",
    }
}

/// The variant form of `e` starts with the text naming its variant, and the
/// form of an operation is `named` over the forms of its two sides, each of
/// which is lower than `e`.
proof fn lemma_variants_layout(e: Equation)
    ensures
        e.variants_shown().len() >= 1,
        e.variants_shown()[0] == Fragment::Text(variant_opening(e)),
        e.sides() matches Some((l, r)) ==> {
            &&& e.variants_shown() == named(variant_opening(e), l.variants_shown(), r.variants_shown())
            &&& l.height() < e.height()
            &&& r.height() < e.height()
        },
{
}

/// Equations whose variant forms open with the same text are of the same
/// variant.
proof fn lemma_openings_distinct(e1: Equation, e2: Equation)
    requires
        variant_opening(e1) == variant_opening(e2),
    ensures
        e1 is Add <==> e2 is Add,
        e1 is Subtract <==> e2 is Subtract,
        e1 is Multiply <==> e2 is Multiply,
        e1 is Divide <==> e2 is Divide,
        e1 is Term <==> e2 is Term,
{
    reveal_strlit("[Add(");
    reveal_strlit("[Subtract(");
    reveal_strlit("[Multiply(");
    reveal_strlit("[Divide(");
    reveal_strlit("[Term(");
    assert(variant_opening(e1)@ == variant_opening(e2)@);
}

/// No variant form is a proper prefix of another: where the form of `e1`
/// followed by `rest1` equals the form of `e2` followed by `rest2`, the two
/// equations are equal and so are the two rests.
proof fn lemma_variants_prefix_free(
    e1: Equation,
    e2: Equation,
    rest1: Seq<Fragment>,
    rest2: Seq<Fragment>,
)
    requires
        e1.variants_shown() + rest1 == e2.variants_shown() + rest2,
    ensures
        e1 == e2,
        rest1 == rest2,
    decreases e1.height(),
{
    let whole = e1.variants_shown() + rest1;
    lemma_variants_layout(e1);
    lemma_variants_layout(e2);
    assert(whole[0] == e1.variants_shown()[0]);
    assert(whole[0] == e2.variants_shown()[0]);
    lemma_openings_distinct(e1, e2);
    match (e1, e2) {
        (Equation::Term(c1, x1), Equation::Term(c2, x2)) => {
            assert(whole[1] == Fragment::Number(c1));
            assert(whole[1] == Fragment::Number(c2));
            assert(whole[3] == Fragment::Number(x1));
            assert(whole[3] == Fragment::Number(x2));
            assert(rest1 =~= whole.skip(5));
            assert(rest2 =~= whole.skip(5));
        },
        _ => {
            let (l1, r1) = e1.sides().unwrap();
            let (l2, r2) = e2.sides().unwrap();
            let name = variant_opening(e1);
            let tail1 = seq![Fragment::Text(", ")] + r1.variants_shown() + seq![Fragment::Text(")]")] + rest1;
            let tail2 = seq![Fragment::Text(", ")] + r2.variants_shown() + seq![Fragment::Text(")]")] + rest2;
            assert(whole.skip(1) =~= l1.variants_shown() + tail1);
            assert(whole.skip(1) =~= l2.variants_shown() + tail2);
            lemma_variants_prefix_free(l1, l2, tail1, tail2);
            let end1 = seq![Fragment::Text(")]")] + rest1;
            let end2 = seq![Fragment::Text(")]")] + rest2;
            assert(tail1.skip(1) =~= r1.variants_shown() + end1);
            assert(tail2.skip(1) =~= r2.variants_shown() + end2);
            lemma_variants_prefix_free(r1, r2, end1, end2);
            assert(rest1 =~= end1.skip(1));
            assert(rest2 =~= end2.skip(1));
        },
    }
}

/// The variant form determines the equation: two equations with the same
/// variant form have the same variants, shape, and term values (compared
/// by their bit patterns).
pub proof fn lemma_variants_determine_equation(e1: Equation, e2: Equation)
    requires
        e1.variants_shown() == e2.variants_shown(),
    ensures
        e1 == e2,
{
    assert(e1.variants_shown() + Seq::empty() =~= e2.variants_shown() + Seq::empty());
    lemma_variants_prefix_free(e1, e2, Seq::empty(), Seq::empty());
}

} // verus!

verus! {

/// The printed form of an operation is its left-hand side and its
/// right-hand side, in that order, separated by the operation's symbol
/// (` + `, ` - `, ` * ` or ` / ` for a sum, difference, product or
/// quotient, whatever the sides are) and enclosed in brackets chosen by the
/// depth: `{}` at depth 2, `()` at depth 3, `<>` deeper.
pub proof fn lemma_display_of_operation(e: Equation)
    requires
        !(e is Term),
    ensures
        ({
            let s = e.shown();
            let l = e.sides().unwrap().0.shown();
            let r = e.sides().unwrap().1.shown();
            let n = l.len() as int;
            let m = r.len() as int;
            &&& s.len() == n + m + 3
            &&& s.subrange(1, n + 1) == l
            &&& s.subrange(n + 2, n + m + 2) == r
            &&& e is Add ==> s[n + 1] == Fragment::Text(" + ")
            &&& e is Subtract ==> s[n + 1] == Fragment::Text(" - ")
            &&& e is Multiply ==> s[n + 1] == Fragment::Text(" * ")
            &&& e is Divide ==> s[n + 1] == Fragment::Text(" / ")
            &&& e.height() == 2 ==> s[0] == Fragment::Text("{") && s[n + m + 2] == Fragment::Text("}")
            &&& e.height() == 3 ==> s[0] == Fragment::Text("(") && s[n + m + 2] == Fragment::Text(")")
            &&& e.height() >= 4 ==> s[0] == Fragment::Text("<") && s[n + m + 2] == Fragment::Text(">")
        }),
{
    let s = e.shown();
    let l = e.sides().unwrap().0.shown();
    let r = e.sides().unwrap().1.shown();
    let n = l.len() as int;
    let m = r.len() as int;
    assert(s.subrange(1, n + 1) =~= l);
    assert(s.subrange(n + 2, n + m + 2) =~= r);
}

/// A term is printed as `0` when its coefficient is `+0.0` or `-0.0`;
/// otherwise as its coefficient, followed by nothing when the exponent is
/// `+0.0` or `-0.0`, by `x` when the exponent is `1.0`, and by `x^` and the
/// exponent for any other exponent.
pub proof fn lemma_display_of_term(coeff: u32, exp: u32)
    ensures
        coeff == 0 || coeff == 0x8000_0000 ==> Equation::Term(coeff, exp).shown() == seq![Fragment::Text("0")],
        !(coeff == 0 || coeff == 0x8000_0000) && (exp == 0 || exp == 0x8000_0000)
            ==> Equation::Term(coeff, exp).shown() == seq![Fragment::Number(coeff)],
        !(coeff == 0 || coeff == 0x8000_0000) && exp == 0x3F80_0000
            ==> Equation::Term(coeff, exp).shown() == seq![Fragment::Number(coeff), Fragment::Text("x")],
        !(coeff == 0 || coeff == 0x8000_0000) && !(exp == 0 || exp == 0x8000_0000 || exp == 0x3F80_0000)
            ==> Equation::Term(coeff, exp).shown() == seq![
                Fragment::Number(coeff),
                Fragment::Text("x^"),
                Fragment::Number(exp),
            ],
{
}

/// The variant form of a term is `[Term(<coeff>, <exp>)]`; that of an
/// operation is its variant's name (`[Add(`, `[Subtract(`, `[Multiply(` or
/// `[Divide(`), the form of its left-hand side, `, `, the form of its
/// right-hand side, and `)]`.
pub proof fn lemma_variants_of_each(e: Equation)
    ensures
        e matches Equation::Term(c, x) ==> e.variants_shown() == seq![
            Fragment::Text("[Term("),
            Fragment::Number(c),
            Fragment::Text(", "),
            Fragment::Number(x),
            Fragment::Text(")]"),
        ],
        !(e is Term) ==> ({
            let s = e.variants_shown();
            let l = e.sides().unwrap().0.variants_shown();
            let r = e.sides().unwrap().1.variants_shown();
            let n = l.len() as int;
            let m = r.len() as int;
            &&& s.len() == n + m + 3
            &&& e is Add ==> s[0] == Fragment::Text("[Add(")
            &&& e is Subtract ==> s[0] == Fragment::Text("[Subtract(")
            &&& e is Multiply ==> s[0] == Fragment::Text("[Multiply(")
            &&& e is Divide ==> s[0] == Fragment::Text("[Divide(")
            &&& s.subrange(1, n + 1) == l
            &&& s[n + 1] == Fragment::Text(", ")
            &&& s.subrange(n + 2, n + m + 2) == r
            &&& s[n + m + 2] == Fragment::Text(")]")
        }),
{
    if !(e is Term) {
        let s = e.variants_shown();
        let l = e.sides().unwrap().0.variants_shown();
        let r = e.sides().unwrap().1.variants_shown();
        let n = l.len() as int;
        let m = r.len() as int;
        assert(s.subrange(1, n + 1) =~= l);
        assert(s.subrange(n + 2, n + m + 2) =~= r);
    }
}

} // verus!

verus! {

/// The `f32` values `+0.0` and `-0.0` are the bit patterns `0` and
/// `0x8000_0000`, and `1.0` is `0x3F80_0000`; brackets are square up to
/// depth 1, braces at 2, parentheses at 3, and angle brackets beyond.
pub proof fn lemma_values_and_brackets(bits: u32, depth: nat)
    ensures
        is_zero_bits(bits) <==> (bits == 0 || bits == 0x8000_0000),
        is_one_bits(bits) <==> bits == 0x3F80_0000,
        depth <= 1 ==> brackets(depth) == ("[", "]"),
        depth == 2 ==> brackets(depth) == ("{", "}"),
        depth == 3 ==> brackets(depth) == ("(", ")"),
        depth >= 4 ==> brackets(depth) == ("<", ">"),
{
}

} // verus!
