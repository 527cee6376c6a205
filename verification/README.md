# ubi

`ubi` compiles the routes tree of a Ubi web project: `ui.ubi` pages into
HTML and JavaScript (or Jetpack Compose screens), `server.ts`,
`server.py`, `ui.ubi` and `middleware.ts` route sources into Rust
modules, and `model.ts` files into SQL.

The crate is split in two.

- `src/` is the library, verified with Verus: the page compiler (anchors,
  imports, layouts, scripts, styles, signals, `<if>` and `<for>` blocks),
  the source rewrites around the structural rewriter, the route and
  middleware tables, the rule tables handed to the rewriter, the file-name
  rules of a project, the configuration, and the machine setup decisions.
  Regular expressions, UUIDs, paths and JSON go through small trusted
  wrappers around `regex`, `uuid`, `std::path` and `serde_json`, whose
  contracts are stated in their doc comments.
- `app/` is the `ubi` command: it walks the project, reads and writes the
  files, runs the external tools (`cb`, `dp`, `pn`, `cargo`), watches the
  project in development and runs the migration.

The templates and tools that the command installs into projects
(`project/`, `routes/`, `android/`, `libs/`, `dprint.json`) are read at run
time from `~/.ubi/assets`.
