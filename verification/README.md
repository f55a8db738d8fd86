# lox

A tree-walking implementation of the Lox language, written in Verus.

- `src/` is the verified library: the scanner (`scanner.rs`, with the
  lexical rules as spec functions), the recursive-descent parser
  (`parser.rs`, proved against the grammar in `grammar.rs`), the syntax
  trees (`ast.rs`) and their printer (`ast_printer.rs`), the scopes
  (`environment.rs`), functions, classes and instances, the value rules of
  evaluation and the state of a run (`interpreter.rs`), the description of
  the syntax tree types and their Rust source (`generate_ast.rs`,
  `ast_source.rs`), and the laws the library keeps (`laws.rs`).
- `app/` is the `lox` program: it reads a script or a prompt, prints, and
  walks the syntax tree, doing the floating-point arithmetic and number
  formatting that the library leaves to it.
- `tests/` runs the library on concrete inputs.
