# lox

A Lox scanner, parser, resolver, tree-walking interpreter and language
services (definitions and completions), written in Verus.  The scanner,
parser, resolver, printer and language services are specified exactly and
proved.  The interpreter is proved against a semantics of statements and
expressions (`valid_stmt`, `valid_expr` and the call, loop and class rules
beside them): what each statement prints, binds and reports, and how calls,
loops, classes and properties behave.  Numbers come from a type implementing
`Number`; what arithmetic gives and how a number is printed is that type's
part.

Layout:

- `src/scanner.rs`, `src/token.rs`: tokens of a source text, against the
  spec function `spec_scan`.
- `src/parser.rs`, `src/parser/`: a recursive descent parser; `grammar.rs`
  states the grammar as spec functions over a parse state, and every parsing
  function is proved to compute exactly what the grammar says.
- `src/resolver.rs`: scope resolution of variables, against `spec_resolve`.
- `src/interpreter.rs`, `src/interpreter/`: the interpreter over a heap of
  frames, classes and instances, with the semantics it is proved against;
  numbers come from a type implementing `Number`.
- `src/environment.rs`: a stand-alone environment of nested frames, with its
  laws.
- `src/language/`: definitions and completions at a position; `model.rs`
  states the walk that finds them.
- `src/ast_printer.rs`: the printed form of statements and expressions.
- `src/lib.rs`: the pipelines (`scan`, `parse`, `resolve`, `interpret`, `ast`).
- `app/`: the command line program and the WebAssembly bindings.
- `tests/`: the tests.
