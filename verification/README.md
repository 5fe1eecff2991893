# pundoc

A markdown to LaTeX converter whose core is verified with Verus.

- `src/` is the library. Its functions carry `requires` / `ensures` contracts over
  mathematical models (`Seq`, `Map`, views of each type), and Verus proves the code
  against them:
  - `config`, `basic_config`, `geometry`, `cskvp`: configuration, its layering
    (command line over document header over config file over defaults) and the
    comma-separated key-value syntax of inline configuration;
  - `frontend`, `conversion` (the model), `convert` (the code), `event`, `refs`,
    `cow_wrapper`, `range`, `diagnostics`: the conversion of markdown events into pundoc events, with
    labels, figures, tables, links, includes and inline configuration; `nesting` proves
    that a conversion keeps events nesting as the parser's events do;
  - `latex`, `latex_complex`, `beamer`, `document`, `preamble`, `number`, `size`:
    the LaTeX that each event and each document class produces;
  - `rustdoc`: the documentation of a Rust crate, from what rustdoc describes of it
    (`rustdoc::types`), as the same document events: headings, definitions written out
    as Rust source, docs, and the traversal that hands them out one by one;
  - `text`, `ext`, `error`: strings, byte offsets and diagnostics.
- Calls into outside crates (`pulldown-cmark`, `regex`, `isolang`, `quoted-string`,
  `svgbob`, and a few of `std`) stand behind small trusted wrappers, each with a doc
  comment that says what its contract claims of the outside function.
- `app/` is the command-line program: argument handling, file I/O, the floating-point
  layout of table columns, and writing the output.
- `tests/` runs the library on concrete inputs.
