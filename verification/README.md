# symbolic_regression

Expression trees for symbolic regression by genetic programming, verified
with Verus.

* `src/equation.rs` — the `Equation` tree (terms held by the bit patterns of
  their `f32` coefficient and exponent), its depth, joining two equations with
  an operation, splitting an operation into its sides, copying and replacing.
* `src/crossover.rs` — the crossover of two equations, as a function of the
  coin outcomes and as a random draw, with its laws (depth bound, where the
  values of the child come from, when the child is a term).
* `src/render.rs` — the printed forms of an equation as text and number
  fragments.
* `src/chance.rs` — the random choices drawn through `rand`.
* `app/main.rs` — the program: random equations with floating-point chances
  and values, evaluation, and writing numbers as text.
