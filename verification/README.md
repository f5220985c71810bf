# math_core

Building blocks of a LaTeX-to-MathML converter, written in Verus: each
function carries a `requires`/`ensures` contract that Verus proves.

## Layout

- `src/` — the verified library.
  - `mmlc` — a converter built on an owned syntax tree: writing nodes as
    indented MathML, rewriting nodes (math variants, text transforms, merging
    single letters), and converting the `$..$` and `$$..$$` formulas of a
    document with a caller-supplied converter.
  - `renderer` — the nodes of a formula and their MathML writer
    (`renderer::emit`: `Node::emit`, whose text `node_mathml` states for
    every node, at every indentation), with string buffers and the arena that
    owns them, table columns, equation numbers and stretchy operators.
  - `mathml_renderer` — operator categories, number formatting, colours and
    the indentation of MathML text.
  - `environments`, `latex_parser` — the LaTeX environments, equation
    numbering, character classes and parsing modes.
  - `specifications` — length units and column specifications.
  - `html_utils` — escaping text for HTML content and attributes.
  - `config`, `token`, `text` — options, digit tokens, string comparison.
  - `contracts` — the contracts given to the few `std` functions that vstd
    leaves unspecified.
- `tests/` — tests of the library, run with the outside crates linked.
- `app/` — what Verus does not take: lengths (floating point, `dtoa`), the
  serde form of the configuration (`serde`, `rustc-hash`), and converting the
  HTML files of a directory in place.

Two outside crates are called from the verified library, each through trusted
wrappers whose contracts state what their documentation promises: the arena is
`stable_arena::DroplessArena` (`src/renderer/arena.rs`), and `memchr::memchr3`
finds the characters to escape in HTML content (`src/html_utils.rs`).

## What is not here

The LaTeX lexer and parser are not part of this crate: they rely on modules
(the command tables, the error type, the float reader) that are not available
to it. The older writer with a math-variant state (`MathMLEmitter`) is not
here either: its text transforms and attribute values come from a module that
is not available to it. For that reason `mmlc::document::replace` and
`mmlc::document::latex_to_mathml` take the converter or the parser from their
caller, and `app`'s `convert_html` passes a converter through.

`Node::emit` recurses through rows and tables, which the arena holds as
slices of node references. Its contract is stated with a depth budget: the
text is `node_mathml(node, indent, max_depth())`, and `emittable` asks that the
node be nested less deeply than that budget (more levels than a machine can
hold), that its equation numbers be non-zero, and that column separators stand
only in tables.
