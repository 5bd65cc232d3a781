# op_cached

A daemon and CLI that cache `op read` / `op inject` results from the 1Password
CLI in memory, encrypted with the user's default GPG key.

- `src/` is the verified library (Verus): the cache of encrypted values and its
  laws (`cache`), plain-value time types (`time`), line framing of the
  JSON-lines protocol (`protocol`), the daemon's per-request decisions
  (`daemon`), the client's connection and reply decisions (`client`), the
  configuration precedence rules (`config`) and string helpers (`text`).
- `app/` is the program around it: command line, sockets, subprocesses
  (`op`, `gpg`), async plumbing, serde encodings and environment reading.
- `tests/` exercise the library on concrete values.
