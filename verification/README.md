# graphcal

The front end of a language for engineering calculations, verified with Verus:
source text is lexed and parsed, tables and multi-declarations are desugared,
and every name in an expression is resolved.

- `src/exact_rational.rs`: rational numbers in lowest terms.
- `src/syntax/`: tokens, the grammar and the parser that is proved to follow it,
  syntax trees, equivalence up to layout, desugaring of multi-declarations,
  visitors.
- `src/desugar/`: the trees without sugar.
- `src/hir/`: name resolution. A part that does not resolve becomes an error
  node, and each such node has one error.
- `src/registry/`: indexes and dimensions.
- `src/json/`: parameter values from JSON.
- `tests/`: tests of the compiled library.
- `app/`: floating point, JSON text and error reports around the library.

Trees are described by terms (`src/syntax/term.rs`): the grammar says which term
a source text denotes, and each executable function says which term its result
has. What holds of several functions together stands in the `laws` modules.

Decimal literals are the one thing that the library does not compute: their
values come from the caller as bit patterns (`Parser::with_float_values`,
`DecimalValues`). Dates, times and time zones come from `jiff`, and the decoding
of JSON strings from `serde_json`.
