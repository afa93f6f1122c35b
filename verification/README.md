# vdora

Vdora records speech, transcribes it locally with Whisper, copies the
transcript to the clipboard and can paste it at the cursor (GTK4/libadwaita
window, tray icon, and a one-shot command line mode for desktop shortcuts).

## Layout

- `src/` — the library, verified with Verus: its functions carry
  `requires`/`ensures` contracts proved against mathematical specifications.
  A few small functions that call the standard library or the `directories`
  crate (appending a character, Unicode lowercasing, reading the clock, the
  per-user data directory) are trusted: their contracts, where they have one,
  are believed rather than proved.
  - `text.rs` — whitespace, trimming, word splitting, joining, splitting on a
    separator, decimal numbers, Unix file names.
  - `hotkey/` — the default hotkey and the normalisation of typed hotkeys into
    GTK accelerator syntax.
  - `config.rs` — settings and their defaults.
  - `diagnostics.rs` — the bounded error log, health checks and the
    diagnostics report.
  - `audio/recorder.rs` — which files are recordings, when one is complete,
    when a leftover one is stale.
  - `stt/whisper.rs` — transcription settings, clean-up of the model's text,
    recording layout checks.
  - `oneshot.rs` — the command line, the state file shared by one-shot
    invocations, and the decisions of a one-shot run.
  - `ui.rs` — the decisions of the main window (recording/transcription
    bookkeeping, settings form, texts).
  - `tray.rs`, `state.rs` — tray texts and icons, window states.
- `tests/` — tests run against the compiled library.
- `app/` — the program around the library: GTK window, tray service,
  recording with `pw-record`, Whisper inference, clipboard and paste helpers,
  files and processes.
