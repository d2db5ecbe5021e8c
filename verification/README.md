# oneshell

The back end of a desktop remote workbench (SSH terminal, SOCKS5 proxy,
encrypted connection profiles, a local script workstation and a file
workstation), with its logic written in Verus and proved against its
contracts.

## Layout

- `src/` — the verified library.
  - `text.rs`, `paths.rs`, `order.rs`: character sequences (trimming, integer
    rendering, replacement), Unix path rules, and a stable sort by
    lexicographic keys.
  - `crypto.rs`: master keys, SHA-256 key derivation, and sealing passwords
    with AES-256-GCM; `decrypt_secret` opens what `encrypt_secret` seals.
  - `db.rs`: checking and preparing connection profiles for the encrypted
    store, and the statements the store runs.
  - `scripts.rs`, `sftp.rs`: path resolution confined to a workspace root,
    script kinds and commands, shell quoting, listings in display order.
  - `ssh.rs`: connection requests, the texts and events of a session, the
    session registry, and what each channel message turns into.
  - `transport.rs`: the steps of the SSH transport set-up (proxy or direct
    route, password authentication, pseudo-terminal, shell) and of the
    keep-alive loop, as functions from state and observation to action.
  - `laws.rs`: properties across operations, such as that a quoted value is
    one shell word denoting the value.
  - `fresh.rs`, `models.rs`: the clock and random ids; the shared records.
- `tests/` — tests of the library on concrete values.
- `app/` — the I/O around it: files, SQLite, local processes, the russh and
  SOCKS5 network runtime, and the command handlers.
