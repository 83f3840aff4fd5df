# lemurclaw

The verified core of the lemurclaw launcher and of its release tooling.

- `src/` is the library, written in Verus. Its functions carry contracts
  that Verus proves, except the few functions marked
  `#[verifier::external_body]` that call `serde_json`, `toml`, `syn`,
  `proc-macro2` and parts of `std`: their contracts are believed, and each
  one's doc comment says what it claims.
  - Launcher: `config` (command line), `launcher` (frontend choice),
    `assets` and `gui` (serving and scripting the embedded frontend),
    `glue` (JSON-RPC envelopes between the frontend and the app server),
    `chat`, `chat_stream` (the Chat Completions payload and stream),
    `environments` (turn environments), `code_mode`.
  - Release tooling: `manifest`, `workspace`, `rename`, `source_rewrite`,
    `brand`, `display`, `otel`, `patches`, `sizes`, `strip_v8`, `forks`,
    `cluster`, `graph`, `aggregate`, `merge_text`, `reexports`, `fixups`
    (with the checks that decide whether a cluster merge goes ahead),
    `include_paths`.
  - Shared: `text` (character sequences and their specifications), `json`
    and `toml_value` (document models, parsed by `serde_json` and `toml`).
- `app/` is the program around it: `main`, files and processes.
- `tests/` runs the library on concrete inputs.
