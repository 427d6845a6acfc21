# lopiper

The core of a small Lisp interpreter, verified with Verus.

- `src/list.rs`: the cons list that expressions are built from.
- `src/types.rs`: expressions (`Sexps`), tokens, quotes, helpers that read arguments, and
  the comparisons of values that need no floating point. Floats are held by their IEEE-754
  bit patterns.
- `src/floats.rs`: equality and order of doubles given by their bit patterns, as floats
  compare.
- `src/env.rs`: symbol tables addressed by index, each looking in a parent table, and the
  callables they bind.
- `src/eval.rs`: the evaluator over those tables (`eval`, `apply`, the special forms
  `define` and `lambda`, the built-ins `+` and `-`), each stated against a mathematical
  definition of evaluation.
- `src/scoped.rs`: a simpler evaluator over a chain of scopes held by reference.
- `src/laws.rs`: properties of lookups and of evaluation, proved.
- `app/main.rs`: printing of expressions, comparisons of an integer with a float, and a
  demonstration run.
