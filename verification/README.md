# wasm-pack (verified core)

The logic of a rust -> wasm workflow tool, proved with Verus.

- `src/path.rs`: a model of path text under Unix or Windows rules
  (separators, Windows prefixes such as `C:` and `\\server\share`, verbatim
  paths): which component a path ends with, and how `join` puts a path onto
  a base. A path joined onto a verbatim Windows base is rebuilt from
  components (`src/verbatim.rs`).
- `src/command/utils.rs`: choosing the crate path, recognising and locating
  the `pkg` directory from what the file system reported, and turning a
  verbatim canonical Windows path back into its usual form.
- `src/command/wasm_build.rs`: build modes and their names, the build options,
  the plan of steps that each mode runs, and the progress of a build through
  its plan, with the laws that the modes promise.
- `src/lib.rs`: the command line (`Cli`, `Command`).
- `app/`: file-system access, command-line parsing with structopt, and the
  loop that runs a build's steps.
