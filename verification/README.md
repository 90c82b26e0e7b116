# ludex

The core of the Ludex desktop game library, written in Verus: the
functions under `src/` carry contracts that Verus proves, except the small
trusted wrappers around the standard library and outside crates, whose
contracts are taken on trust.

- `src/` — the verified library: title identity (`identity`), launcher
  providers and their manifest formats (`providers`, `vdf`), Steam account and
  local data (`steam_account`, `steam_data`, `metadata`), process matching and
  the session tracker (`process_monitor`, `sessions`, `launch`), library rules
  for statuses, ROMs, sync files and backups (`product`), the store
  (`store`), API-key storage rules (`secrets`) and the updater (`updater`).
  Text and path primitives with their models live in `text` and `paths`.
- `tests/` — tests that run the library with its real dependencies.
- `app/` — the desktop backend around the library: SQLite, HTTP, the file
  system, the Windows registry and process list, and the tracker threads.

Calls into other crates (`shlex`, `chrono`, `semver`, `sha2`, `base64`) go
through small trusted wrappers whose contracts name what those crates
compute.
