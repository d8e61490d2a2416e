# rxedit

Composable, line-oriented search and edit commands over source files. Each command
(`more::pattern`, `less::pattern`, `all::pattern`, `delete::pattern`, `change::a::b`,
`declarations::name`, `imports::name`, ...) receives the lines of a file with a
visibility flag and returns them with visibility, keys or text changed. Python and Rust
files are parsed with tree-sitter into a *hashtree* of declarations and imports keyed by
their first line.

Layout:

- `src/` is the library, verified with Verus: command parsing (`make_command`,
  `commands_factory`), every command's `apply`, the flag grammar, the hashtree
  extraction from a flattened syntax tree, the run of a command list
  (`pipeline::run_commands`), the help tables and the configuration rules. Contracts are
  stated over spec functions on views; `src/laws.rs` holds the properties that span
  several functions.
- `tests/` runs the library on concrete inputs.
- `app/` is the command-line program: argument handling, file and terminal I/O,
  confirmation prompts, language plugins loaded at run time, and the serde copies of the
  library's types.
