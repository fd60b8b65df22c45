# litho

Configuration and preprocessing core of a documentation generator, written in
Verus.

- `src/text.rs` — a model of `str::lines`, `trim`, `trim_matches`,
  `trim_start_matches`, `trim_end_matches` and `split(..).nth(1)` over
  character sequences, with verified implementations on index ranges.
- `src/project_name.rs` — how a project's name is found: the configured name,
  else `Cargo.toml`, `package.json`, `pyproject.toml`, `pom.xml`, `.csproj`,
  else the directory's name.
- `src/config.rs` — the LLM provider (names, parsing), the defaults of the
  configuration sections and of the fields a configuration file may omit.
- `src/code_analyze.rs` — the tally of per-file analyses and when the step
  fails.
- `app/` — loading the TOML configuration, reading manifests from disk, serde
  forms of the configuration types, and awaiting the analyses.
