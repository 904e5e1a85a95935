# cargo_pup

Architectural lints for Rust projects: rules about modules, structs,
functions and trait implementations, configured in Rust (a `LintBuilder`,
stored as RON) or in YAML, and checked against a crate.

The library in `src/` is verified with Verus. It holds the configuration
model and its fluent builders, the generation of a starting configuration
from project descriptions, the decisions of each lint (which items a lint
selects and exactly what it reports for them), the call-graph walk that finds
heap allocations and panics, the YAML rule table reader, and the project
description that the `print-modules`, `print-traits` and `generate-config`
modes produce.

- `src/config/`: the configuration types, their builders and matcher DSLs,
  and the `cargo` invocation that checks a project from a test.
- `src/lints/`: the lints, each deciding from plain facts about an item;
  `call_graph.rs` with the allocation and panic walk; `factory.rs` with the
  YAML rule table; `runner.rs` with the modes and the project description.
- `src/project_context.rs`, `src/cli.rs`: project descriptions and the
  command line.
- `src/text.rs`, `src/order.rs`, `src/pattern.rs`: strings, ordering and the
  `regex` calls the lints make.

`app/` is the unverified rest: files (RON, JSON), serde copies of the
library's types, `cargo metadata`, running `cargo pup` from tests, and the
compiler passes that read the facts from rustc's HIR and MIR (these need a
nightly toolchain with `rustc-dev`).

`tests/` exercises the library from outside.
