# qualirs

A code smell detector for Rust sources. The library in `src/` holds the
detectors' decisions, the bounded local evidence they rest on (scopes,
bindings, guards, type kinds), the safety-note association, manifest
reading, the report text and the report filters (precision mode, minimum
severity, category) with the rule that critical findings fail a run, each
with a contract that Verus proves.

`src/walk.rs` is the evidence walk: over a model of a file's syntax it shows
every expression, in evaluation order, with the scope context that holds at
it (early exits, branch arms, closures and async blocks as separate
execution scopes, guards released or forgotten). Detectors that need a whole
file's view (discarded spawns, local locks) run over that walk in `src/`.
`src/signature.rs` and `src/tokens.rs` read function signatures and token
streams through `syn` and `proc-macro2`, behind wrappers whose contracts name
what those crates return.
`src/laws.rs` states properties of the library as a whole.

`app/` is the command-line program: it reads files, parses them with `syn`,
converts the syntax one node for one into the library's models, and prints
the findings.

`tests/` exercises the library through its models.
