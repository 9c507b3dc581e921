# archlint

The core of archlint, an architecture linter for TypeScript and JavaScript
projects, written in Verus. The functions under `src/` carry contracts and
are proved against them, but for the small wrappers around outside code
(`petgraph`, `glob`, `sha2`, `memchr`, `regex`, `std::path` and two of
`std`'s string methods), whose contracts are trusted, not proved.

- `src/` holds the logic: the dependency graph and the incremental state
  beside it, the import resolver's candidates, tsconfig merging and the
  `extends` chain, `package.json` entry points, ignore directives in comments,
  stable smell IDs for snapshots, rule resolution with overrides, the
  severity filter and ordering of a report, the reports themselves (the JSON
  value, the Markdown report with the smells grouped by detector, the
  Mermaid chart, the SARIF log), and the snapshots that `diff` compares.
- `app/` holds what touches the file system or a serialisation format:
  walking the tree, reading tsconfig and `package.json` files, resolving
  imports against existing files, reading and writing snapshots, writing
  the reports, and computing the architecture grade, a floating-point
  figure. It decides nothing else; it asks the library.
- Parsing TypeScript sources (imports, exports, classes, complexity) is not
  part of this crate: the library holds what parsing yields as plain values
  (`ParsedFile`, `FileSymbols`, `ImportRecord`) and works from them.
- `tests/` runs the library on concrete values.
