# budgetkernel

A small, deterministic budget accounting kernel, written in Verus.

A budget holds a limit, and optionally a warn threshold, for each declared
dimension. Every charge adds to a running total and answers with
`Continue`, `Warn(dim)` or `Exhausted(dim)`.

Layout:

- `src/dim.rs` — the closed set of dimensions, their dense indices and names.
- `src/verdict.rs` — verdicts, their severity order and the `worst` reduction.
- `src/fixed_map.rs` — an array-backed map from dimension to `u64`.
- `src/error.rs` — builder and charge errors, with verified messages.
- `src/budget.rs` — the builder and the budget, specified over `BuilderView`
  and `BudgetView`.
- `src/laws.rs` — properties that span operations (accumulation, reset,
  inclusive limits, build validity), proved over those views.
- `tests/` — executable tests of the library.
- `app/lib.rs` — `Display` and `std::error::Error` for copies of the error types.
