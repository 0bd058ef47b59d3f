# eluma

Eluma keeps several webmail and chat services open side by side in one
desktop window, each in its own webview, and shows their unread counts in
a sidebar.

This crate is its core, written in Verus: the application's rules are
executable functions with contracts that Verus proves. Where a rule rests
on an outside crate (URL parsing, TOML, UUIDs, JSON), the call sits behind
a small trusted wrapper whose contract says what the crate does, and the
logic around it is proved against that contract.

- `config`: the `config.toml` model, its validation, the checks an edit
  must pass, and edits of the file's text. The edits are made with
  `toml_edit`, which keeps comments and formatting (the tests check this
  on examples); what is proved is that an edited text is returned only
  when it validates to exactly the configuration the edit calls for.
- `services`: ids for new services, the webview operations a
  configuration change implies, and the manager's bookkeeping.
- `profile`: profile keys and their stable data-store UUIDs.
- `agent_bridge`: validation of the reports a service page posts, and the
  script injected into it.
- `unread`, `notify`, `liveness`: service statuses, notification
  decisions (with the ring of already-notified message ids), and the
  state machine that notices services that stopped reporting.
- `icons`, `net_guard`, `weburl`: icon source order and download rules,
  address checks, and the URL facts the rest relies on.
- `state`, `paths`, `platform`, `commands`, `host`, `text`, `idmap`,
  `order`: persisted values, file names, small platform decisions,
  command payloads, webview labels, and supporting collections.

Maps keyed by a service id (`IdMap`) or a profile key (`ProfileTable`)
are kept as vectors of entries with distinct keys: with std's `HashMap`
or `BTreeMap` keyed by a type of this crate, Verus would accept the calls
but prove nothing about what they do.

`app/` is the Tauri application around the core: windows, webviews,
files, network, notifications, timers and background tasks. It calls
the core for its decisions and is not itself verified; the timing of
background saves, for one, is measured there. `tests/` exercises the
core on concrete values.
