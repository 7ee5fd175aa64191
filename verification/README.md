# Gas Codex

The logic of a desktop client for the codex engine, verified with Verus.

- `src/config.rs`: the client's settings, the engine's `config.toml` that follows
  from them, and the probe of the configured service.
- `src/bridge.rs`: starting and stopping the engine, and the JSON-RPC messages
  that go to it and come from it, one to a line.
- `src/installer.rs`: where the engine lives, the mirrors that it is fetched
  from, and the plan by which its package is unpacked.
- `src/json.rs`, `src/http.rs`, `src/paths.rs`, `src/text.rs`: JSON values,
  response statuses, paths and text.

The library touches no file, no process and no network; of the machine it only
asks, through `dirs`, where the user's home directory is. Each operation that
needs more is written as a function from what has happened to what is done next;
`app/` does it, behind a Tauri window, and reports back. What is believed of `serde_json`, `tar`, `flate2`,
`reqwest`, `dirs` and `std` without proof stands in functions marked
`external_body`, each with a comment that says what is claimed.
