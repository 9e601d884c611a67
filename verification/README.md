# powerpaste

The core of the PowerPaste clipboard manager as a Verus library: clipboard
history storage decisions, the clipboard watcher, encrypted folder sync, settings
rules and the helpers behind the app's commands, each with a contract that Verus
proves.

Layout:

- `src/` — the verified library.
  - `models.rs`: clipboard items, settings, sync providers.
  - `store.rs`: the SQL each history operation runs, row decoding, text and image
    deduplication plans, paging and retention clean-up.
  - `table.rs`: a model of the history table and of what its statements do and
    answer, with the laws that upserts are idempotent, trash-then-restore gives a
    row back, emptying the trash deletes exactly the trashed rows, and the history
    lists the untrashed rows, pinned first and newest first.
  - `watcher.rs`: the clipboard watcher as a state machine from events to actions.
  - `clipboard.rs`: content-type detection and deduplication hashes.
  - `sync.rs`: Argon2 key derivation and ChaCha20-Poly1305 sealing of sync files.
  - `settings.rs`: defaults, normalisation and validated setters.
  - `commands.rs`: overlay sizing and placement, id parsing, paste plans and other
    command decisions.
  - `platform.rs`: platform services of this build and file-URL decoding.
  - `native.rs`: the decisions inside the macOS and Windows platform code
    (permission verdicts, icon lookup, PowerShell quoting, the `CF_HDROP` file list).
  - `text.rs`, `encoding.rs`: string, base64, hexadecimal and UUID text helpers.
  - `trusted.rs`: every call into std or an outside crate that Verus cannot read,
    with the contract that is assumed for it.
- `app/` — ordinary Rust around the library: SQLite, the settings file, the OS
  keychain, the system clipboard and the sync folder.
- `tests/` — tests of the library on concrete values.
