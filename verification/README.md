# rust_concepts

Small, verified building blocks that illustrate core Rust ideas: slices and
UTF-8 strings, hand-written iterators and adapters, error values and their
propagation, lifetimes, traits and dispatch, closures, hand-written equality
and order, entity storage by id, and futures written as state machines.

- `src/` is the library. Every function carries a contract that Verus proves:
  `text` (decimal formatting and integer parsing, words, trimming),
  `slices`, `iterators`, `errors`, `lifetimes`, `traits` (with a repository
  and its test double), `closures`, `comparisons` and `order`
  (lexicographic order and its laws), `ids` (sparse set, arena, component
  world), `futures` (polled state machines and an executor loop), `perf`
  and `memory`.
- `tests/` exercises the library and the language features it illustrates.
- `app/` holds what the verifier does not model: `f64` data, `Display` and
  `std::error::Error` on copies of the error types, `Future` adapters for the
  state machines, listeners stored as boxed `FnMut` closures, and a pinned
  self-referential value.
