# Freally Player — verified core

The logic of a local-first media player, written in Verus and proved against its contracts:

- `src/` — the library. Percent-encoding and the bounded bug-report URLs (`percent`,
  `bugreport`), subtitle loading and charset detection (`subtitles`, `charset`), the
  OpenSubtitles request/reply logic and result ranking (`opensubtitles`), the bounded per-file
  memory behind resume points and subtitle timing (`store`), settings and the EULA gate
  (`settings`, `eula`), command checks (`commands`), launch arguments (`launch`), the engine's
  vocabulary and the video surface's shared state (`player`, `surface`), file locations
  (`paths`, `host`) and character-level helpers (`text`).
- `tests/` — tests against the library's public API.
- `app/` — the Tauri shell around it: windows, commands, the libmpv engine, HTTP, files, and
  everything that handles floating-point transport values.
