# FrpDesk

The logic of a desktop application that keeps frpc configurations, starts and
stops frpc processes, updates frpc, and works with a system service that keeps
the processes running. It is written in Verus: the functions in `src/` have
contracts, and all but two of these are proved.

- `src/state.rs` holds the application state, `AppView`, and its model. A method
  of `AppView` takes what the user does, or what came of an action, and returns
  the actions to perform next (`src/types.rs`).
- `src/editing.rs`, `src/processes.rs`, `src/update.rs`, `src/service.rs`,
  `src/monitor.rs`, `src/preferences.rs` and `src/startup.rs` are the operations,
  each specified by a function on the model.
- `src/table.rs`, `src/text.rs` and `src/guard.rs` are what they are built from.
- `src/laws.rs` and `src/events.rs` state what holds across the operations.
- `tests/` runs the library on concrete values.
- `app/` performs the actions: it reads and writes files, talks to processes and
  to the service, and draws the window.

The two that are not proved belong to the wrappers `to_lowercase` and
`from_utf8_lossy` in `src/text.rs`. They say what `str::to_lowercase` and
`String::from_utf8_lossy` of the standard library do, and are taken on trust.
