# ecolog_lsp

A language server for environment variables, with its logic written and
proved in Verus.

- `src/` is the verified library: dotenv parsing results and their lint
  diagnostics, semantic tokens of dotenv files, positions and line/column
  arithmetic, the document store and its edits, the workspace index with its
  dependency graph and resolution cache, configuration defaults, the reading
  of `ecolog.toml` and the layering of configuration sources, value masking
  in hovers, completions and inlay hints, the syntax errors of a parsed tree,
  the `ecolog.*` commands (parsing their arguments and writing their
  replies), inlay hints, hover, rename and symbol decisions, and what each of
  the seventeen supported languages reads off its syntax nodes. Calls into
  korni, ropey, glob, num_cpus, toml, url and `std::path` sit behind small trusted
  wrappers whose contracts are stated next to them.
- `app/` is the server itself: it speaks LSP over stdin/stdout with
  tower-lsp, reads files, asks abundantis for variable values, parses code
  with tree-sitter (handing the library the node tree as plain values), and
  hands plain values to the library.
- `tests/` runs the library on concrete inputs.
