# MouseVPN client

The client side of MouseVPN for desktop systems. What the client decides is a
library whose functions carry contracts that Verus proves; what it asks of the
operating system is ordinary Rust around that library.

The proofs rest on the contracts of the library's wrappers around other crates
and around parts of the standard library, which Verus believes without proof.
They are the items marked `#[verifier::external_body]` or written as
`assume_specification`; the comment above each says what it claims.

- `src/` — the library. It does no I/O: it takes what the system reported and
  returns what to do, what to write and what to show.
  - packets and flows: `packet`, `flow`, `divert`, `windivert`, `geo`, `trie`
  - the session: `liveness`, `packet_loop`, `diagnostics`, `runtime`,
    `split_tunnel`, `incoming`, `capture`, `network_events`, `session`
  - the network policy: `network`, `netcfg`, `script`, `wfp`, `killswitch`,
    `app_bypass`, `platform`, `platform_stub`, `package_sid`
  - the desktop: `connection`, `commands`, `profiles`, `app_exclusions`,
    `app_paths`, `installations`, `discovery`, `settings_file`, `helper_log`,
    `helper_runtime`, `reliability`, `tray`
  - what the rest is built on: `text`, `bytes`, `ip`, `clock`, `counter`,
    `order`, `assoc`, `error`
- `tests/` — what the library does on concrete values.
- `app/` — the programs: the window (feature `gui`), the helper behind it, and
  the watchdog behind the helper. `app/windows/` talks to the drivers. On Windows
  the program is a diagnostic where its file is named `filter_check`,
  `flow_probe` or `split_probe`.
- `extras/installed_apps.ps1` — the script that lists installed applications.
- `extras/companions.toml` — an example of the file that names companions.

Times are counted in nanoseconds from a moment that the caller chooses. Paths
are text; what only the file system knows of them is handed in beside them.

## Companions

Some Store applications start a helper that is updated apart from them, below
the user's configuration directory, in one directory per version. Where such an
application is selected, its helpers are selected with it, and those of versions
that are gone are dropped. `companions.toml`, beside `settings.toml`, names these
applications; without the file there are none. Each `[[companions]]` entry holds

- `package` — the name of the application's package,
- `executable` — the file name of the helper,
- `directory` — the directory of the helper's versions, below the user's
  configuration directory.
