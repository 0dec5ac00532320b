# sing_like_coding

A tracker-style music sequencer whose song model, editing logic and playback
decisions are written in Verus and proved against their contracts.

- `src/` — the verified library:
  - `model/` — songs, tracks, lanes, items, modules and the routing between
    modules (insertion, deletion and moves of tracks, processing order);
  - `engine/` — the audio engine's decisions: events of a block, recording,
    edits and their undo history, requests from the editor, MIDI input;
  - `editor/` — the editor: cursor, selection, commands, clipboard requests,
    the command palette, the lists to choose from, the evaluation line and the
    text of the pattern's cells;
  - `text.rs`, `note.rs`, `cursor.rs`, `protocol.rs`, `settings.rs`,
    `song_state.rs` — text helpers, note names, the cursor, the plugin host's
    message framing, settings files and the published song state.
- `tests/` — tests on concrete values.
- `app/` — the program around the library: the engine's thread, the plugin
  host connection, song and settings files, the clipboard, plugin scanning and
  the evaluation of lines typed on standard input.
