# mynote

A diary / notes desktop application whose decisions and text handling are
proved with Verus.

- `src/` — the verified library:
  - `text` — character helpers and decimal notation;
  - `sanitize` — removal of `<script>` elements from note content, with its laws.
    Tags are found and cut by character position: text such as
    `Ⱥ<script>x</script>abc` becomes `Ⱥabc`, also where a byte-offset search in
    a lower-cased copy would cut elsewhere, panic, or never finish;
  - `display` — the short creation date shown beside a note;
  - `paths` — the home directory and the file layout under it (joined as
    `PathBuf::join` does, bare `C:` and `\\?\C:` drives included; the rewriting
    of `.`, `..` and repeated separators inside Windows verbatim paths is not
    modelled);
  - `notes` — notes, rows, edits and identifiers;
  - `query` — the statement that lists notes and its bound values;
  - `settings` — default categories and settings, and which settings a user may change;
  - `backups` — backups listed newest first (a verified stable sort);
  - `session` — the machine that decides which note to open at start-up (it
    takes a found note only when it is the live note asked for, or a live diary
    note of the day), a model of the store it talks to with the law that a
    second opening returns the same note, and whether the daily backup is due;
  - `statements` — the statements that change notes, categories and settings,
    with their bound values.
- `tests/` — tests of the library on concrete values.
- `app/` — the desktop program: SQLite through `rusqlite`, the file system, the
  clock, serde shapes for the front end and the Tauri commands.
