# bashgate

A fail-closed Bash structure gate, verified with Verus. `parse` turns a Bash
source string into simple commands with statically resolved `argv`, leading
`NAME=value` assignments, file redirects, UTF-8 byte spans and the control
operators between them (`&&`, `||`, `|`, `|&`, `;`, `&`, newline), or refuses
the input with a `TooComplex` reason when any part of it is not statically
understood.

## Layout

- `src/` — the verified library.
  - `parser.rs`: `BashGate`, its source checks, `analyze` (the whole analysis
    of a syntax tree, specified exactly by `spec_analyze`), `decide` (the
    result for each thing the parser can do) and `parse`.
  - `grammar.rs`: the only place that calls `tree-sitter` and
    `tree-sitter-bash`: parser setup, and `parse_syntax`, which copies the
    grammar's tree of a source (named `bash_syntax`) into plain
    `SyntaxNode`s.
  - `precheck.rs`, `validate.rs`, `walker.rs`, `argument.rs`, `redirect.rs`,
    `structure.rs`, `order.rs`, `text.rs`: the checks on the source and on the
    tree, the walk that collects commands and operators, argument and redirect
    decoding, byte-span slicing and the stable sort by span.
  - `laws.rs`, `refusals.rs`, `loosening.rs`: properties of every result,
    proved over `spec_analyze`.
  - `input.rs`: stripping the line end of a command read from a stream.
- `tests/` — tests through the public API, on real parses and on
  hand-built syntax trees.
- `app/` — the command-line program (`bashgate parse ...`), which prints the
  result as JSON.
