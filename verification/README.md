# xai_grok_pager (provider picker core)

The verified library behind the pager's `/provider` picker.

- `src/provider_catalog.rs` — the ordered catalog of agent providers (native
  Grok first, then configured providers by `order`, then declaration order),
  lookup by catalog id, and resolution of typed input.
- `src/provider_command.rs` — the `/provider` slash command: picker rows,
  selection gating and the switch action.
- `src/child_bridge.rs` — what the line pumps between a child agent's
  standard streams and the ACP connection do on each event.
- `src/text.rs` — trimming, ASCII case-insensitive comparison and splitting,
  specified over `Seq<char>`.
- `src/laws.rs` — properties that span these functions.
- `app/` — reading the TOML config, probing commands on disk and `PATH`, and
  spawning the child process; it calls into the library.
