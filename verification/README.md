# oracle

Verified core of an Android network-forensics platform. The library (`src/`)
is written in Verus: every function carries a `requires`/`ensures` contract
that Verus proves, and the properties the platform promises as a whole
(an intact hash chain after any sequence of appends, every intent answered
after recovery, sessions that partition the events, and so on) are public
proof functions named `law_*`.

## Layout

- `src/` — the verified library.
  - Audit log: `hash` (SHA-256 and hex), `entry` (chained entries and their
    canonical JSON), `writer` (append-only, write-before-execute),
    `chain` (verification), `export` (self-verifying exports),
    `custody` (chain-of-custody records).
  - Device capability: `adb` (device list, stat and connection checks over
    the `adb` tool's text), `detector` (root, SELinux, bootloader,
    encryption, accessible artifacts), `briefing`, `profiles`, `vfs`.
  - Correlation: `events`, `identity`, `timeline`, `correlate` (anomaly
    analysers), `roles` (client or hotspot), `sort` (stable sort).
  - Pipeline: `pipeline`, `run_control`, `acquisition`, `instants`, `reporting`,
    `run_records`; commands and start-up: `commands`, `startup`, `config`.
  - Shared: `types`, `error`, `text`, `json`, `ai`, `confidence`.
- `tests/` — ordinary Rust tests against the compiled library.
- `app/` — the `oracle` command: argument handling, the SQLite audit
  database, the `adb` process, TOML configuration files, the terminal, and
  the floating-point confidence scores.

Outside crates are called from `src/` only through small trusted wrappers
(`sha2`, `hex`, `serde_json`, `uuid`, `chrono`, `regex` and a few `std`
functions), each with a doc comment that states what its contract claims.
