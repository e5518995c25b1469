use vstd::prelude::*;

use crate::equation::{is_operation, Equation};

verus! {

/// Calls `rand::random_ratio(numerator, denominator)`, which returns `true`
/// with probability `numerator / denominator` from the thread-local
/// generator. `requires` holds its documented demand (it panics if
/// `denominator == 0` or `numerator > denominator`); `ensures` holds the two
/// outcomes its documentation guarantees (`false` for a zero numerator,
/// `true` when the numerator equals the denominator). Any other outcome is
/// left open.
#[verifier::external_body]
pub(crate) fn draw_ratio(numerator: u32, denominator: u32) -> (hit: bool)
    requires
        denominator > 0,
        numerator <= denominator,
    ensures
        numerator == 0 ==> !hit,
        numerator == denominator ==> hit,
{
    rand::random_ratio(numerator, denominator)
}

/// Calls `rand::random_range(0..=high)` on the thread-local generator. Its
/// documentation promises a value of the range, which `ensures` states; the
/// range is never empty, so the call does not panic on that account. Which
/// value comes out is left open.
#[verifier::external_body]
fn random_up_to(high: u8) -> (r: u8)
    ensures
        r <= high,
{
    rand::random_range(0u8..=high)
}

/// The operation drawn as `index`: `0` is `'+'`, `1` is `'-'`, `2` is `'*'`,
/// `3` is `'/'`, and any other index gives `'?'`.
pub open spec fn operation_at(index: u8) -> char {
    if index == 0 {
        '+'
    } else if index == 1 {
        '-'
    } else if index == 2 {
        '*'
    } else if index == 3 {
        '/'
    } else {
        '?'
    }
}

/// The operation drawn as `index` (see [`operation_at`]).
pub fn operation_for(index: u8) -> (op: char)
    ensures
        op == operation_at(index),
        is_operation(op) <==> index <= 3,
{
    match index {
        0 => '+',
        1 => '-',
        2 => '*',
        3 => '/',
        _ => '?',
    }
}

impl Equation {
    /// Draws one of the four operations, each with equal chance.
    pub fn random_operation() -> (op: char)
        ensures
            is_operation(op),
            exists|index: u8| index <= 3 && op == operation_at(index),
    {
        let index = random_up_to(3);
        operation_for(index)
    }
}

} // verus!

verus! {

/// The four draws `0` to `3` name the four operations in the order
/// `+`, `-`, `*`, `/`, each a different one; every larger draw names none.
pub proof fn lemma_operation_indices(index: u8)
    ensures
        operation_at(0) == '+',
        operation_at(1) == '-',
        operation_at(2) == '*',
        operation_at(3) == '/',
        index > 3 ==> !is_operation(operation_at(index)),
        index <= 3 ==> is_operation(operation_at(index)),
        forall|i: u8, j: u8| i <= 3 && j <= 3 && i != j ==> operation_at(i) != operation_at(j),
{
}

} // verus!
