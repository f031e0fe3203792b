# deno_lint

A verified library of lint rules for JavaScript, TypeScript and JSX. Each rule
reads a syntax tree held as plain values (`src/ast.rs`) and returns its
diagnostics; its contract states them exactly, as a spec function of the tree.

- `src/ast.rs`: the syntax tree; `src/walk.rs`: the walk that lists its nodes
  in source order, as entering and leaving events.
- `src/diagnostic.rs`: diagnostics, hints and fixes; `src/text.rs`: text
  helpers, and the calls into `regex`; `src/order.rs`: ordering of
  diagnostics; `src/tags.rs`: the tags that group the rules (the
  `recommended` set is enabled by default); `src/linter.rs`: which rules
  run, and the order in which their diagnostics are reported.
- `src/rules/`: one module per rule, each with `code`, `tags` and `lint`.
- `app/`: parsing with `deno_ast`, conversion into the tree, and running the
  rules over a source text.

The rules `no-unreachable` and `no-unused-vars` are not part of this
library.
