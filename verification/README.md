# cloneonce

CloneOnce creates lightweight macOS `.app` wrappers around apps, commands, files
and folders: each wrapper runs a zsh launcher with its own data folder, browser
profile or `HOME`, environment and arguments.

This crate is the verified core, written in Verus:

- `text`, `escape`, `naming`, `paths`: character-level string work, shell quoting,
  XML escaping, file names, slugs and Unix paths, each specified over `Seq<char>`.
- `env`: parsing of `KEY=VALUE` environment entries (kept sorted by name, the last
  assignment winning) and of argument lines.
- `json`, `inspect`: reading `plutil` output as JSON (through `serde_json`), the property list and code-signing entitlements of an app
  bundle, and what they say about sandboxing, shared login storage and the
  compatibility preset.
- `launcher`: the launcher script, stated as a function of the configuration,
  with laws on what it exports, passes and removes.
- `shortcut`: the layout of a wrapper bundle, its `Info.plist`, data path,
  executable and bundle identifier.
- `record`: the settings object of a wrapper's `config.json`, written out through `serde_json`.
- `generate`: the generation of a wrapper as a state machine; the caller performs
  each file-system step and reports the outcome.

`app/` is the desktop side: it reads bundles through `plutil` and `codesign`,
performs the generation steps on disk, runs `open`, and exposes the commands to
the user interface.
