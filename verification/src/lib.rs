//! Verified core of a voice-to-clipboard dictation tool: text clean-up of
//! transcripts, hotkey normalisation, settings, diagnostics, the one-shot
//! command line and state file, and the decisions of the main window.

pub mod audio;
pub mod config;
pub mod diagnostics;
pub mod hotkey;
pub mod oneshot;
pub mod state;
pub mod stt;
pub mod text;
pub mod tray;
pub mod ui;
