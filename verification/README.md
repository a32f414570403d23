# teststrip

A warm-up companion for photo editing: it draws a few RAW (`.cr2`) files at
random from an archive, opens each in the editor, gives a challenge per photo,
watches the export folder for the expected JPEG, and logs every session.

## Layout

- `src/` — the verified library.
  - `settings.rs`: settings, the built-in challenge list, the merge of saved
    settings with the defaults, and the challenge draw.
  - `session.rs`: the session state machine (steps, outcomes, rejection,
    countdown and export-watch decisions).
  - `picking.rs`: the random walk through the archive, picking distinct files,
    and the search for a replacement.
  - `history.rs`: history entries, the framing of the log and its read order.
  - `exports.rs`: the sorted list of exported JPEGs.
  - `paths.rs`, `text.rs`, `random.rs`: paths as text, text helpers, and the
    random generator.
- `app/` — the desktop application around it: window commands, threads,
  file system, file watching, launching the editor, JSON.
- `tests/` — tests of the library.
