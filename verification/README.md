# sshwarden

The keeper of an SSH agent's keys from a Bitwarden vault: it logs in, syncs the vault's
SSH keys, keeps an encrypted local key cache that a PIN (or the platform keyring)
unlocks, follows the server's notification hub, and manages `~/.ssh/config` snippets
that pin hosts to keys. The library decides how sign requests are answered, but this
build has no SSH agent protocol implementation: it cannot serve agent clients (the
daemon reports the agent as not serving), and it has neither Windows Hello unlock nor
the graphical dialogs; prompts are on the terminal.

## Layout

- `src/` — the verified library (Verus). Every function carries a contract; the laws
  of the library are public proof functions named `law_*`.
  - `crypto`, `primitives` — Bitwarden EncStrings, key derivation, PIN encryption; the
    primitives are thin trusted wrappers over the RustCrypto crates and `base64`.
  - `envelope` — the local key cache: building and refreshing it, unlocking it with a
    PIN or a keyring-held key, migrating a legacy vault file.
  - `client`, `models` — the Bitwarden session and the decryption of synced SSH keys.
  - `config`, `paths`, `storage` — configuration values, storage locations and the
    on-disk records.
  - `bindings`, `keys`, `ssh_config`, `ssh_target` — host bindings, key selector
    files, the managed SSH config snippet and the `Include` line.
  - `control`, `daemon`, `doctor`, `notifications`, `ui`, `request_parser` — the
    daemon's decisions: control commands, PIN lockout, status, sync events, the
    notification hub protocol, sign-request decisions, diagnostics.
- `tests/` — tests of the library, run against the compiled crate.
- `app/` — the `sshwarden` command: argument parsing, files, HTTP, sockets, the
  WebSocket connection and the daemon loop, all calling the library for every
  decision.
