# wpbs host runtime

The host side of the plugin runtime: the functions a plugin calls to keep
state, to offer and call dependency functions, to register with the Discord
and job scheduler services, and to ask the core to stop. Each is stated in
`requires`/`ensures` and proved with Verus.

- `src/store.rs` — the key-value database (fjall): a `Store` owns the one
  handle to it, modelled as keyspaces of byte maps, behind trusted wrappers.
  All plugins share one store, handed to each call that reads or writes it.
- `src/ids.rs` — UUIDs as sixteen bytes and their hyphenated text.
- `src/model.rs` — errors, plugin metadata and permissions.
- `src/host.rs` — plugin state, dependency functions, shutdown, registration.
- `src/services/` — Discord and job scheduler registrations.
- `src/laws.rs` — what holds across calls and across plugins.
- `app/` — the asynchronous host functions: channels to the core, the
  service table and logging around the library.
