# kptui

A terminal password manager for KeePass (`.kdbx` 4) vaults, built around a
library whose logic is verified with Verus.

## Layout

- `src/` — the verified library:
  - `input/fieldedit.rs`: the editable text field (cursor, line movement,
    horizontal scrolling) with its laws;
  - `input/fieldview.rs`: word wrapping of notes;
  - `input/index.rs`, `input/edit.rs`, `input/login.rs`, `input/settings.rs`,
    `input/command.rs`: what every key does on each screen, as transitions of
    `app::App` that hand vault work back as an `app::Effect` (the settings
    screen: vault and keyfile paths, auto-lock, theme choice, and the master
    password change, import and export dialogs);
  - `warnings.rs`: how many entries share each user name and password;
  - `app.rs`: the application state, the sorted and filtered entry list, and
    the lock after inactivity;
  - `db.rs`: entries, TOTP descriptions and their `otpauth://` URIs;
  - `export.rs`, `config.rs`, `cli.rs`, `clipboard.rs`: export format
    choice, settings, command line and clipboard timing;
  - `ui/`: what the entry and settings screens show (rows, reuse marks,
    dialog titles and hints, the notes editor's scroll and cursor) and
    their key hints;
  - `text.rs`, `width.rs`: string helpers and the calls into `zeroize` and
    `unicode-width`.
- `app/` — the program: terminal drawing with `ratatui`/`crossterm`, the vault
  file with `keepass` (unlock, save, password change, import and export),
  CSV and JSON files with `csv` and `serde_json`, and the configuration file
  with `toml`.
- `tests/` — tests of the library.
