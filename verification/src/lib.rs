//! Expression trees for symbolic regression by genetic programming.
//!
//! An [`Equation`] is `y = f(x)`, where `f(x)` is either a single term
//! `coeff * x^exp` or two equations joined by `+`, `-`, `*` or `/`.
//! Coefficients and exponents are 32-bit IEEE-754 numbers, held by their
//! bit patterns.

mod chance;
mod crossover;
mod equation;
mod render;

pub use equation::{
    is_operation, lemma_height_of_operation, lemma_height_positive, lemma_sides_of_each_operation,
    lemma_unify_then_split, lemma_unify_variant, max_nat, same_variant, unified, Equation,
};
pub use crossover::{
    crossed, lemma_crossover_height, lemma_crossover_is_term, lemma_crossover_of_two_operations,
    lemma_crossover_of_two_terms, lemma_crossover_term_into_operation, lemma_crossover_values,
    lemma_replace_one_side,
};
pub use render::{
    bracket_pair, bracketed, brackets, is_one_bits, is_one_value, is_zero_bits, is_zero_value,
    lemma_display_of_operation, lemma_display_of_term, lemma_variants_determine_equation,
    lemma_values_and_brackets, lemma_variants_of_each, named, term_shown, variant_opening, Fragment,
};
pub use chance::{lemma_operation_indices, operation_at, operation_for};
