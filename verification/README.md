# autoversion

Semantic version bumping for npm, Cargo, Maven, Python, Go, Composer, Gradle and
plain `VERSION`-file projects, with its logic verified by Verus.

## Layout

- `src/` — the verified library.
  - `engine/` — project files as values, technology detection, semantic
    versions and bumps, configuration.
  - `updaters/` — one updater per technology. An updater reads the contents it
    is handed (`FileReads`) and returns a plan of backups and writes
    (`UpdatePlan`); contracts state the plan and the versions read back.
  - `git/` — conventional-commit analysis, tag and commit texts.
  - `cli/` — argument grammar and validation, output texts.
  - `utils/` — path and file-name rules, backup names, line endings.
  - `rollback.rs` — which backups to restore and what to undo.
  - `json_api.rs`, `toml_api.rs`, `regex_api.rs`, `semver_api.rs`,
    `std_api.rs` — the trusted bindings to `serde_json`, `toml`, `regex`,
    `semver` and `std`; each states what it assumes of the call it makes.
- `app/` — the program: command line (clap), file system, git (git2), printing.
  It hands the library plain values and carries out its plans.
- `tests/` — tests of the library on concrete values.
