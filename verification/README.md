# rust-script, verified

`rust-script` runs Rust files and expressions like scripts: it turns the
input into a Cargo package (extracting the manifest embedded in the script
and merging it with defaults), keeps packages and binaries in a cache, and
builds and runs them with Cargo.

The decisions are a library checked with Verus:

- `src/manifest.rs`, `src/comments.rs`, `src/markdown.rs`, `src/patterns.rs`:
  finding the embedded manifest (a `// cargo-deps:` line or a `cargo` code
  block in the first doc comment).
- `src/templates.rs`, `src/package.rs`, `src/merge.rs`, `src/fix_paths.rs`,
  `src/table.rs`, `src/toml_model.rs`: the package's source and manifest.
- `src/input.rs`, `src/action.rs`, `src/prelude.rs`: inputs, dependencies,
  package ids and what is to be done.
- `src/command.rs`, `src/cache.rs`: reusing or building the binary, and
  cleaning the cache.
- `src/platform.rs`, `src/file_assoc.rs`, `src/util.rs`, `src/error.rs`:
  the clock and cache directories, the Windows file association text,
  helpers and the error type.

`app/` is the program around it: command-line parsing with `clap`, the file
system, and running Cargo and the script.

Paths are modelled as UTF-8 strings with Unix semantics: only a leading `/`
makes a path absolute, joins use `/`, and a user cache directory that is not
valid UTF-8 counts as none. Whether Cargo's output is coloured is asked of
the terminal on every platform.
