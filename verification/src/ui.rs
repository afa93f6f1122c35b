//! The decisions of the main window: when recording may be toggled, which
//! transcription results count, how the settings form becomes a new
//! configuration, and the texts the window shows.
use vstd::prelude::*;

use crate::config::{AppConfig, LogLevel};
use crate::state::AppState;
use crate::text::{append_str, from_chars, to_chars, trim_chars, trimmed};

verus! {

/// Recording can be started or stopped unless a transcription is running.
pub fn can_toggle_recording(state: AppState) -> (r: bool)
    ensures
        r == (state != AppState::Transcribing),
{
    state != AppState::Transcribing
}

/// A transcription result is ignored unless it belongs to the transcription
/// that is awaited.
pub fn should_ignore_transcription_result(active_id: Option<u64>, incoming_id: u64) -> (r: bool)
    ensures
        r == (active_id != Some(incoming_id)),
{
    match active_id {
        Some(a) => a != incoming_id,
        None => true,
    }
}

/// A transcript is empty when it holds nothing but whitespace.
pub fn transcript_is_empty(text: &str) -> (r: bool)
    ensures
        r == (trimmed(text@).len() == 0),
        r == crate::text::all_ws(text@),
{
    crate::text::is_blank(text)
}

/// The log level at a position of the settings' drop-down list.
pub open spec fn log_level_at(index: u32) -> Option<LogLevel> {
    if index == 0 {
        Some(LogLevel::Info)
    } else if index == 1 {
        Some(LogLevel::Debug)
    } else {
        None
    }
}

/// The position of a log level in the settings' drop-down list.
pub open spec fn log_level_index(level: LogLevel) -> u32 {
    match level {
        LogLevel::Info => 0,
        LogLevel::Debug => 1,
    }
}

pub fn parse_log_level_selection(selected_index: u32) -> (r: Option<LogLevel>)
    ensures
        r == log_level_at(selected_index),
{
    match selected_index {
        0 => Some(LogLevel::Info),
        1 => Some(LogLevel::Debug),
        _ => None,
    }
}

pub fn log_level_to_index(log_level: LogLevel) -> (r: u32)
    ensures
        r == log_level_index(log_level),
{
    match log_level {
        LogLevel::Info => 0,
        LogLevel::Debug => 1,
    }
}

/// Selecting the position shown for a level selects that level again, and
/// the positions in the list are exactly those of the levels.
pub proof fn lemma_log_level_selection_round_trip(level: LogLevel, index: u32)
    ensures
        log_level_at(log_level_index(level)) == Some(level),
        log_level_at(index) matches Some(l) ==> log_level_index(l) == index,
{
}

/// With a tray icon the window starts hidden.
pub fn should_start_hidden(tray_available: bool) -> (r: bool)
    ensures
        r == tray_available,
{
    tray_available
}

/// With a tray icon closing the window hides it.
pub fn should_hide_on_close(tray_available: bool) -> (r: bool)
    ensures
        r == tray_available,
{
    tray_available
}

/// At start-up a saved auto-paste setting is turned off when the paste tool
/// is missing; the result says whether the settings changed and must be saved
/// again. Nothing else in the settings changes.
pub fn disable_unavailable_autopaste(config: &mut AppConfig, paste_available: bool) -> (r: bool)
    ensures
        r == (old(config).autopaste && !paste_available),
        final(config).autopaste == (old(config).autopaste && paste_available),
        final(config).language == old(config).language,
        final(config).model_path == old(config).model_path,
        final(config).hotkey == old(config).hotkey,
        final(config).log_level == old(config).log_level,
{
    if config.autopaste && !paste_available {
        config.autopaste = false;
        true
    } else {
        false
    }
}

/// Why the settings form was refused.
#[derive(Debug)]
pub enum SettingsError {
    /// The model path is blank.
    EmptyModelPath,
    /// The model path does not name a regular file; it holds the reason.
    InvalidModelPath(String),
    /// Auto-paste was asked for, but its helper program is not installed.
    AutopasteUnavailable,
}

impl SettingsError {
    /// The message shown for this error.
    pub open spec fn message_spec(&self) -> Seq<char> {
        match self {
            SettingsError::EmptyModelPath => "Model path cannot be empty"@,
            SettingsError::InvalidModelPath(e) => "Invalid model path: "@ + e@,
            SettingsError::AutopasteUnavailable =>
                "Auto-paste requires ydotool/ydotoold. Install it or keep auto-paste disabled."@,
        }
    }

    pub fn message(&self) -> (r: String)
        ensures
            r@ == self.message_spec(),
    {
        match self {
            SettingsError::EmptyModelPath => String::from_str("Model path cannot be empty"),
            SettingsError::InvalidModelPath(e) => crate::text::concat_str(
                "Invalid model path: ",
                e.as_str(),
            ),
            SettingsError::AutopasteUnavailable => String::from_str(
                "Auto-paste requires ydotool/ydotoold. Install it or keep auto-paste disabled.",
            ),
        }
    }
}

/// A settings error, with its text as a character sequence.
pub enum SettingsErrorView {
    EmptyModelPath,
    InvalidModelPath(Seq<char>),
    AutopasteUnavailable,
}

impl View for SettingsError {
    type V = SettingsErrorView;

    open spec fn view(&self) -> SettingsErrorView {
        match self {
            SettingsError::EmptyModelPath => SettingsErrorView::EmptyModelPath,
            SettingsError::InvalidModelPath(e) => SettingsErrorView::InvalidModelPath(e@),
            SettingsError::AutopasteUnavailable => SettingsErrorView::AutopasteUnavailable,
        }
    }
}

/// The reason the model file check failed, if it did.
pub open spec fn check_view(c: Result<(), String>) -> Option<Seq<char>> {
    match c {
        Ok(_) => None,
        Err(e) => Some(e@),
    }
}

/// An optional text as an optional character sequence.
pub open spec fn opt_view(o: Option<String>) -> Option<Seq<char>> {
    match o {
        Some(s) => Some(s@),
        None => None,
    }
}

/// The language the form asks for: none when blank, else the trimmed text.
pub open spec fn language_of(t: Seq<char>) -> Option<Seq<char>> {
    if trimmed(t).len() == 0 {
        None
    } else {
        Some(trimmed(t))
    }
}

/// Why the settings form is refused, checked in this order: a blank model
/// path, a model path that is not a regular file, auto-paste without its
/// helper program; `None` when it is accepted.
pub open spec fn settings_refusal(
    model_text: Seq<char>,
    model_check: Option<Seq<char>>,
    autopaste_enabled: bool,
    autopaste_available: bool,
) -> Option<SettingsErrorView> {
    if trimmed(model_text).len() == 0 {
        Some(SettingsErrorView::EmptyModelPath)
    } else if model_check is Some {
        Some(SettingsErrorView::InvalidModelPath(model_check->0))
    } else if autopaste_enabled && !autopaste_available {
        Some(SettingsErrorView::AutopasteUnavailable)
    } else {
        None
    }
}

/// The configuration the settings form asks for, built from the current one.
///
/// `model_check` is the outcome of checking that the trimmed model path names
/// a regular file (with the reason when it does not); it is consulted only
/// when that path is not blank. The language is trimmed (blank means
/// automatic), the hotkey trimmed, and everything else, the log level
/// included, is kept from `current`.
pub fn build_next_config(
    current: &AppConfig,
    model_text: &str,
    language_text: &str,
    normalized_hotkey: &str,
    autopaste_enabled: bool,
    autopaste_available: bool,
    model_check: Result<(), String>,
) -> (r: Result<AppConfig, SettingsError>)
    ensures
        match r {
            Ok(c) => settings_refusal(
                model_text@,
                check_view(model_check),
                autopaste_enabled,
                autopaste_available,
            ) is None && c.model_path@ == trimmed(model_text@) && opt_view(c.language)
                == language_of(language_text@) && c.autopaste == autopaste_enabled && c.hotkey@
                == trimmed(normalized_hotkey@) && c.log_level == current.log_level,
            Err(e) => settings_refusal(
                model_text@,
                check_view(model_check),
                autopaste_enabled,
                autopaste_available,
            ) == Some(e@),
        },
{
    let mv = to_chars(model_text);
    let mt = trim_chars(&mv);
    if mt.len() == 0 {
        return Err(SettingsError::EmptyModelPath);
    }
    match model_check {
        Err(e) => {
            return Err(SettingsError::InvalidModelPath(e));
        },
        Ok(()) => {},
    }
    if autopaste_enabled && !autopaste_available {
        return Err(SettingsError::AutopasteUnavailable);
    }
    let lv = to_chars(language_text);
    let lt = trim_chars(&lv);
    let language = if lt.len() == 0 {
        None
    } else {
        Some(from_chars(&lt))
    };
    let hv = to_chars(normalized_hotkey);
    let ht = trim_chars(&hv);
    Ok(
        AppConfig {
            autopaste: autopaste_enabled,
            language,
            model_path: from_chars(&mt),
            hotkey: from_chars(&ht),
            log_level: current.log_level,
        },
    )
}

/// The hotkey line of the recorder page.
pub open spec fn hotkey_line(hotkey: Seq<char>, global_supported: bool) -> Seq<char> {
    "Hotkey: "@ + hotkey + " ("@ + (if global_supported {
        "X11 session: app-level shortcut"@
    } else {
        "Wayland session: app-level shortcut"@
    }) + ")"@
}

/// The hotkey line; `global_supported` tells whether the session allows
/// global hotkeys.
pub fn format_hotkey_line(config: &AppConfig, global_supported: bool) -> (r: String)
    ensures
        r@ == hotkey_line(config.hotkey@, global_supported),
{
    let mut v = to_chars("Hotkey: ");
    append_str(&mut v, config.hotkey.as_str());
    append_str(&mut v, " (");
    if global_supported {
        append_str(&mut v, "X11 session: app-level shortcut");
    } else {
        append_str(&mut v, "Wayland session: app-level shortcut");
    }
    append_str(&mut v, ")");
    from_chars(&v)
}

/// The tip under the record button.
pub fn format_hotkey_tip(config: &AppConfig) -> (r: String)
    ensures
        r@ == "Tip: use "@ + config.hotkey@ + " to start or stop recording quickly."@,
{
    let mut v = to_chars("Tip: use ");
    append_str(&mut v, config.hotkey.as_str());
    append_str(&mut v, " to start or stop recording quickly.");
    from_chars(&v)
}

pub fn format_model_status(is_ready: bool) -> (r: &'static str)
    ensures
        r@ == (if is_ready {
            "Model status: ready"@
        } else {
            "Model status: missing file (open Settings to fix model path)"@
        }),
{
    if is_ready {
        "Model status: ready"
    } else {
        "Model status: missing file (open Settings to fix model path)"
    }
}

pub fn format_autopaste_status(is_available: bool) -> (r: &'static str)
    ensures
        r@ == (if is_available {
            "Auto-paste dependency: available"@
        } else {
            "Auto-paste dependency: unavailable (install ydotool/ydotoold)"@
        }),
{
    if is_available {
        "Auto-paste dependency: available"
    } else {
        "Auto-paste dependency: unavailable (install ydotool/ydotoold)"
    }
}

/// The help text under the settings.
pub open spec fn settings_hint_spec() -> Seq<char> {
    "Hotkey accepts forms like Ctrl+Alt+Space or <Ctrl><Alt>space. Auto-paste is optional and requires ydotool/ydotoold. On Wayland this hotkey works while the app is focused; use GNOME custom shortcuts for global behavior."@
}

pub fn settings_hint_text() -> (r: &'static str)
    ensures
        r@ == settings_hint_spec(),
{
    "Hotkey accepts forms like Ctrl+Alt+Space or <Ctrl><Alt>space. Auto-paste is optional and requires ydotool/ydotoold. On Wayland this hotkey works while the app is focused; use GNOME custom shortcuts for global behavior."
}

// ---------------------------------------------------------------------------
// Recording and transcription in the window
// ---------------------------------------------------------------------------

/// What pressing the record button does.
#[derive(Debug, Clone, Copy, PartialEq, Eq, Structural)]
pub enum ToggleAction {
    /// A transcription is running: tell the user to wait.
    Blocked,
    /// Start a recording.
    StartRecording,
    /// Stop the recording and transcribe it.
    StopRecording,
}

/// What the window tracks about recording and transcription.
#[derive(Debug, Clone, Copy, PartialEq, Eq, Structural)]
pub struct FlowView {
    /// The state shown.
    pub state: AppState,
    /// Whether a recording session is open.
    pub recording: bool,
    /// The id the next transcription will get.
    pub next_id: u64,
    /// The id of the transcription awaited, if any.
    pub current_id: Option<u64>,
}

/// The window's recording and transcription bookkeeping.
pub struct RecordingFlow {
    view: FlowView,
}

/// The bookkeeping when the window opens.
pub open spec fn initial_flow() -> FlowView {
    FlowView { state: AppState::Idle, recording: false, next_id: 1, current_id: None }
}

/// What pressing the record button does in a given situation.
pub open spec fn toggle_spec(v: FlowView) -> ToggleAction {
    if v.state == AppState::Transcribing {
        ToggleAction::Blocked
    } else if !v.recording {
        ToggleAction::StartRecording
    } else {
        ToggleAction::StopRecording
    }
}

/// The bookkeeping once a recording has started.
pub open spec fn after_start(v: FlowView) -> FlowView {
    FlowView { state: AppState::Recording, recording: true, ..v }
}

/// The bookkeeping once starting a recording has failed.
pub open spec fn after_start_failed(v: FlowView) -> FlowView {
    FlowView { state: AppState::Error, ..v }
}

/// The bookkeeping once a recording has been handed to transcription under
/// the id `v.next_id`.
pub open spec fn after_begin(v: FlowView) -> FlowView {
    FlowView {
        state: AppState::Transcribing,
        recording: false,
        next_id: (v.next_id + 1) as u64,
        current_id: Some(v.next_id),
    }
}

/// The bookkeeping once the transcription `id` has reported; a report that
/// is not the awaited one changes nothing.
pub open spec fn after_finish(v: FlowView, id: u64, succeeded: bool) -> FlowView {
    if v.current_id != Some(id) {
        v
    } else {
        FlowView {
            state: if succeeded {
                AppState::Idle
            } else {
                AppState::Error
            },
            current_id: None,
            ..v
        }
    }
}

impl RecordingFlow {
    pub closed spec fn flow(&self) -> FlowView {
        self.view
    }

    pub fn new() -> (r: Self)
        ensures
            r.flow() == initial_flow(),
    {
        RecordingFlow {
            view: FlowView { state: AppState::Idle, recording: false, next_id: 1, current_id: None },
        }
    }

    /// The state shown.
    pub fn state(&self) -> (r: AppState)
        ensures
            r == self.flow().state,
    {
        self.view.state
    }

    /// The id of the transcription awaited, if any.
    pub fn current_transcription(&self) -> (r: Option<u64>)
        ensures
            r == self.flow().current_id,
    {
        self.view.current_id
    }

    /// The id the next transcription will get.
    pub fn next_transcription_id(&self) -> (r: u64)
        ensures
            r == self.flow().next_id,
    {
        self.view.next_id
    }

    /// What pressing the record button does now.
    pub fn toggle_action(&self) -> (r: ToggleAction)
        ensures
            r == toggle_spec(self.flow()),
    {
        if !can_toggle_recording(self.view.state) {
            ToggleAction::Blocked
        } else if !self.view.recording {
            ToggleAction::StartRecording
        } else {
            ToggleAction::StopRecording
        }
    }

    /// A recording has started.
    pub fn recording_started(&mut self)
        ensures
            final(self).flow() == after_start(old(self).flow()),
    {
        self.view = FlowView { state: AppState::Recording, recording: true, ..self.view };
    }

    /// Starting a recording failed.
    pub fn recording_failed(&mut self)
        ensures
            final(self).flow() == after_start_failed(old(self).flow()),
    {
        self.view = FlowView { state: AppState::Error, ..self.view };
    }

    /// The recording stops and goes to transcription; gives the id of that
    /// transcription.
    pub fn begin_transcription(&mut self) -> (id: u64)
        requires
            old(self).flow().next_id < u64::MAX,
        ensures
            id == old(self).flow().next_id,
            final(self).flow() == after_begin(old(self).flow()),
    {
        let id = self.view.next_id;
        self.view = FlowView {
            state: AppState::Transcribing,
            recording: false,
            next_id: id + 1,
            current_id: Some(id),
        };
        id
    }

    /// The transcription `id` reported, successfully or not; gives whether
    /// the report was the awaited one (others are ignored).
    pub fn finish_transcription(&mut self, id: u64, succeeded: bool) -> (accepted: bool)
        ensures
            accepted == (old(self).flow().current_id == Some(id)),
            final(self).flow() == after_finish(old(self).flow(), id, succeeded),
    {
        if should_ignore_transcription_result(self.view.current_id, id) {
            return false;
        }
        self.view = FlowView {
            state: if succeeded {
                AppState::Idle
            } else {
                AppState::Error
            },
            current_id: None,
            ..self.view
        };
        true
    }
}

/// While a transcription runs, the record button does nothing.
pub proof fn lemma_toggle_blocked_while_transcribing(v: FlowView)
    requires
        v.state == AppState::Transcribing,
    ensures
        toggle_spec(v) == ToggleAction::Blocked,
{
}

/// A report from any transcription other than the awaited one leaves the
/// bookkeeping as it was; once the awaited one has reported, every later
/// report is ignored.
pub proof fn lemma_stale_results_ignored(v: FlowView, id: u64, other: u64, ok1: bool, ok2: bool)
    ensures
        v.current_id != Some(id) ==> after_finish(v, id, ok1) == v,
        v.current_id == Some(id) ==> after_finish(after_finish(v, id, ok1), other, ok2)
            == after_finish(v, id, ok1),
{
}

/// Each transcription gets an id that no earlier one had: ids only grow.
pub proof fn lemma_transcription_ids_increase(v: FlowView)
    requires
        v.next_id < u64::MAX - 1,
    ensures
        after_begin(v).current_id == Some(v.next_id),
        after_begin(after_begin(v)).current_id == Some((v.next_id + 1) as u64),
        after_begin(v).next_id > v.next_id,
{
}

/// What happens after a transcription arrives.
#[derive(Debug, Clone, Copy, PartialEq, Eq, Structural)]
pub enum TranscriptAction {
    /// Nothing but whitespace was transcribed.
    NoSpeech,
    /// Copy the transcript to the clipboard; auto-paste is off.
    Copy,
    /// Copy the transcript, then paste it.
    CopyAndPaste,
    /// Copy the transcript only: auto-paste is on, but the window is not
    /// focused, so pasting could land elsewhere.
    CopyUnfocused,
}

/// What to do with a transcript.
pub open spec fn transcript_action_spec(
    transcript: Seq<char>,
    autopaste: bool,
    window_active: bool,
) -> TranscriptAction {
    if trimmed(transcript).len() == 0 {
        TranscriptAction::NoSpeech
    } else if !autopaste {
        TranscriptAction::Copy
    } else if window_active {
        TranscriptAction::CopyAndPaste
    } else {
        TranscriptAction::CopyUnfocused
    }
}

/// A transcript that is only whitespace is never copied; any other is
/// always copied; it is pasted exactly when auto-paste is on and the window
/// has the focus; and only the emptiness of the transcript matters, not its
/// words.
pub proof fn lemma_transcript_handling(t: Seq<char>, u: Seq<char>, autopaste: bool, active: bool)
    ensures
        (transcript_action_spec(t, autopaste, active) == TranscriptAction::NoSpeech) <==> trimmed(
            t,
        ).len() == 0,
        (transcript_action_spec(t, autopaste, active) == TranscriptAction::CopyAndPaste) <==> (
        trimmed(t).len() > 0 && autopaste && active),
        (transcript_action_spec(t, autopaste, active) == TranscriptAction::Copy) <==> (trimmed(
            t,
        ).len() > 0 && !autopaste),
        (transcript_action_spec(t, autopaste, active) == TranscriptAction::CopyUnfocused) <==> (
        trimmed(t).len() > 0 && autopaste && !active),
        (trimmed(t).len() == 0) == (trimmed(u).len() == 0) ==> transcript_action_spec(
            t,
            autopaste,
            active,
        ) == transcript_action_spec(u, autopaste, active),
{
}

pub fn transcript_action(transcript: &str, autopaste: bool, window_active: bool) -> (r:
    TranscriptAction)
    ensures
        r == transcript_action_spec(transcript@, autopaste, window_active),
{
    if transcript_is_empty(transcript) {
        TranscriptAction::NoSpeech
    } else if !autopaste {
        TranscriptAction::Copy
    } else if window_active {
        TranscriptAction::CopyAndPaste
    } else {
        TranscriptAction::CopyUnfocused
    }
}

/// A number written with at least two digits.
pub open spec fn two_digits(n: nat) -> Seq<char> {
    if n < 10 {
        "0"@ + crate::text::decimal(n)
    } else {
        crate::text::decimal(n)
    }
}

/// The running time of a recording, as the recorder page shows it.
pub open spec fn elapsed_text(secs: u64) -> Seq<char> {
    "Recording: "@ + two_digits((secs / 60) as nat) + ":"@ + two_digits((secs % 60) as nat)
}

/// The running time of a recording of `secs` seconds, as minutes and seconds.
pub fn elapsed_label(secs: u64) -> (r: String)
    ensures
        r@ == elapsed_text(secs),
{
    let minutes = secs / 60;
    let seconds = secs % 60;
    let mut v = to_chars("Recording: ");
    if minutes < 10 {
        append_str(&mut v, "0");
    }
    crate::text::push_decimal(&mut v, minutes as u128);
    append_str(&mut v, ":");
    if seconds < 10 {
        append_str(&mut v, "0");
    }
    crate::text::push_decimal(&mut v, seconds as u128);
    assert(v@ =~= elapsed_text(secs));
    from_chars(&v)
}

} // verus!
