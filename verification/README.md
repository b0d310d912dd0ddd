# tdcore

The core of TeraDock, a command-line tool that keeps connection profiles in a local
database and runs reusable command sets over SSH, written in Verus: the library states its
behaviour in `requires`/`ensures` contracts and Verus proves them.

## Layout

- `src/` — the verified library.
  - `id`, `profile`, `settings`, `settings_registry`, `config`: identifiers, profiles,
    scoped settings and their schemas.
  - `ssh`, `agent`, `doctor`, `tester`: SSH command lines, authentication order, ssh-agent
    output, client discovery decisions and reachability reports.
  - `cmdset`, `cmdset_runner`, `parser`, `operations`, `oplog`: command sets, their runs and
    the parsing of their output.
  - `session_log`, `connect`, `conpty`, `conpty_log`, `conpty_loop`, `console`, `listing`:
    terminal-log planning, session outcomes, ConPTY byte handling and the texts shown to the
    user.
  - `transfer`, `tunnel`, `configset`: file transfers, port forwards and configuration sets.
  - `crypto`, `secret`, `secrets`, `import_export`, `history`: key derivation, sealed
    secrets, exports and imports, and the connection history.
  - `text`: sequences of characters and the lemmas about them.
- `tests/` — tests of the library on concrete values.
- `app/` — the `td` command line: argument parsing, the SQLite database, processes, files
  and terminals, around the library.

Calls into outside crates (regex, data-encoding, rand, serde_json, argon2,
chacha20poly1305, aes-gcm, base64, time, chrono) go through small wrappers whose contracts
are trusted; each says in its doc comment what it claims of the crate.
