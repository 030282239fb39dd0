# crud-cli

A scaffolding generator: it renders Handlebars templates kept in
`.crud/templates/` into a project, driven by a shared `.crud/setup.toml`
(languages, path maps, variables) and a per-developer `.crud/setup.user.toml`
(identity, overwrite policy, template scope).

## Layout

- `src/` — the library, verified with Verus. It holds the configuration
  model and its merge rules, the field DSL and JSON entity loading, the
  render context, output path resolution and the traversal guard, the
  overwrite rules, template selection (`--type` globs), front-matter
  handling, template validation rules, the installed-template registry and
  version ordering, install decisions and the content hash, and every error
  the tool reports. Calls into outside crates (`convert_case`, `strsim`,
  `sha2`, `globset`, `toml`, `dirs`, `time`, `gray_matter`, and
  `handlebars` for compiling and rendering a template) sit behind small trusted wrappers
  whose contracts are stated next to them.
- `app/` — the `crud-cli` binary: argument parsing (`clap`), terminal
  prompts (`inquire`), file and network access, the render context as
  JSON, and serde conversions of the on-disk formats.
  It gathers inputs, calls the library's decisions and performs their
  results.
- `tests/` — tests of the library's public functions.
