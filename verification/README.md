# vitest-linter

A linter for Vitest (and Playwright) test suites, written in Verus: the
analysis of a test file, every lint rule, inline suppressions, the
configuration and the engine that combines them carry contracts that Verus
proves.

## Layout

- `src/` — the verified library.
  - `syntax.rs` — `tree-sitter` parses a file; the tree is copied into plain
    `SyntaxNode`s.
  - `parser.rs` — what the rules read of a file (imports, `vi.mock` calls,
    hooks, test and describe blocks, Playwright calls and locator chains),
    each an exact function of the syntax tree.
  - `rules/` — the rules, one exact specification each (`spec_check`), by
    category: flakiness, maintenance, dependencies, validation, Playwright.
  - `suppression.rs` — `vitest-linter-disable[-next-line]` / `-enable`
    comments.
  - `config.rs` — severity overrides, banned mock paths and singletons, the
    integration-test glob (globs compiled by `globset`).
  - `json.rs` — the `vitest-linter.select` table of `package.json` and the
    `compilerOptions` of `tsconfig.json`, read through `serde_json`.
  - `tsconfig.rs` — the files that a `compilerOptions.paths` alias may name.
  - `graph.rs` — the modules of a run keyed by path, with their relative
    imports.
  - `engine.rs` — rules run per configuration group, overrides and
    suppressions applied; `order.rs` — the report's order and the order of
    discovered files.
  - `paths.rs`, `text.rs`, `seqs.rs` — paths as components, text helpers.
- `tests/` — tests of the library.
- `app/` — the command-line program: argument handling, walking directories,
  reading files, TOML decoding, terminal and JSON output.

The laws that the library states (what suppression comments do, that the
report is sorted and holds what the rules found, that overrides and disabled
rules act as configured, that Playwright rules stay silent on other files,
and more) are public proof functions whose names begin with `law_`.
