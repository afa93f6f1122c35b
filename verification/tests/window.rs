use vdora::ui::elapsed_label;
use vdora::config::{AppConfig, LogLevel};
use vdora::state::AppState;
use vdora::ui::{
    build_next_config, can_toggle_recording, format_autopaste_status, format_hotkey_line,
    format_hotkey_tip, format_model_status, log_level_to_index, parse_log_level_selection,
    settings_hint_text, should_hide_on_close, should_ignore_transcription_result,
    should_start_hidden, transcript_action, transcript_is_empty, RecordingFlow, SettingsError,
    ToggleAction, TranscriptAction,
};
use tempfile::NamedTempFile;
use vdora::ui::disable_unavailable_autopaste;

#[test]
fn toggle_recording_blocked_while_transcribing() {
    assert!(!can_toggle_recording(AppState::Transcribing));
    assert!(can_toggle_recording(AppState::Idle));
    assert!(can_toggle_recording(AppState::Recording));
    assert!(can_toggle_recording(AppState::Error));
}

#[test]
fn stale_transcription_ids_are_ignored() {
    assert!(should_ignore_transcription_result(Some(3), 2));
    assert!(should_ignore_transcription_result(None, 1));
    assert!(!should_ignore_transcription_result(Some(7), 7));
}

#[test]
fn transcript_empty_check_uses_trimmed_content() {
    assert!(transcript_is_empty(""));
    assert!(transcript_is_empty("   \n\t"));
    assert!(!transcript_is_empty("hello"));
    assert!(!transcript_is_empty("  hello  "));
}

#[test]
fn build_next_config_updates_values_without_mutating_original() {
    let model = NamedTempFile::new().expect("temp model file should be created");
    let model_path = model.path().display().to_string();
    let current = AppConfig::default();

    let next = build_next_config(
        &current,
        &model_path,
        "en",
        "<Ctrl><Shift>r",
        true,
        true,
        Ok(()),
    )
    .expect("next config should build");

    assert!(!current.autopaste);
    assert_eq!(std::path::Path::new(&next.model_path), model.path());
    assert_eq!(next.language.as_deref(), Some("en"));
    assert!(next.autopaste);
    assert_eq!(next.hotkey, "<Ctrl><Shift>r");
}

#[test]
fn build_next_config_rejects_unavailable_autopaste() {
    let model = NamedTempFile::new().expect("temp model file should be created");
    let model_path = model.path().display().to_string();
    let current = AppConfig::default();

    let err = build_next_config(&current, &model_path, "", "<Ctrl><Alt>space", true, false, Ok(()))
        .expect_err("autopaste should require availability");

    assert!(
        err.message().contains("Auto-paste requires ydotool/ydotoold"),
        "unexpected error: {}",
        err.message()
    );
}

#[test]
fn build_next_config_rejects_empty_model_path() {
    let current = AppConfig::default();
    let err = build_next_config(&current, "   ", "", "<Ctrl><Alt>space", false, true, Ok(()))
        .expect_err("empty model path should be rejected");
    assert!(err.message().contains("Model path cannot be empty"));
}

#[test]
fn build_next_config_keeps_existing_log_level() {
    let model = NamedTempFile::new().expect("temp model file should be created");
    let model_path = model.path().display().to_string();
    let mut current = AppConfig::default();
    current.log_level = LogLevel::Debug;

    let next = build_next_config(
        &current,
        &model_path,
        "",
        "<Ctrl><Alt>space",
        false,
        true,
        Ok(()),
    )
    .expect("next config should build");

    assert_eq!(next.log_level, LogLevel::Debug);
}

#[test]
fn parses_log_level_selection() {
    assert_eq!(parse_log_level_selection(0), Some(LogLevel::Info));
    assert_eq!(parse_log_level_selection(1), Some(LogLevel::Debug));
    assert_eq!(parse_log_level_selection(3), None);
}

#[test]
fn startup_visibility_depends_on_tray_availability() {
    assert!(should_start_hidden(true));
    assert!(!should_start_hidden(false));
}

#[test]
fn close_behavior_depends_on_tray_availability() {
    assert!(should_hide_on_close(true));
    assert!(!should_hide_on_close(false));
}

#[test]
fn build_next_config_reports_unreadable_model_path() {
    let current = AppConfig::default();
    let err = build_next_config(
        &current,
        " /nowhere/model.bin ",
        "",
        "<Ctrl><Alt>space",
        false,
        true,
        Err("model path must point to a regular file".to_string()),
    )
    .expect_err("a path that is not a file is refused");
    assert!(matches!(err, SettingsError::InvalidModelPath(_)));
    assert_eq!(
        err.message(),
        "Invalid model path: model path must point to a regular file"
    );
}

#[test]
fn build_next_config_trims_inputs() {
    let current = AppConfig::default();
    let next = build_next_config(
        &current,
        "  /tmp/m.bin \t",
        "  de  ",
        "  <Ctrl>x ",
        false,
        false,
        Ok(()),
    )
    .expect("valid form");
    assert_eq!(next.model_path, "/tmp/m.bin");
    assert_eq!(next.language.as_deref(), Some("de"));
    assert_eq!(next.hotkey, "<Ctrl>x");
    assert!(!next.autopaste);
    let blank_language = build_next_config(&current, "/m", " \n ", "a", false, true, Ok(()))
        .expect("valid form");
    assert_eq!(blank_language.language, None);
}

#[test]
fn settings_error_messages() {
    assert_eq!(SettingsError::EmptyModelPath.message(), "Model path cannot be empty");
    assert_eq!(
        SettingsError::AutopasteUnavailable.message(),
        "Auto-paste requires ydotool/ydotoold. Install it or keep auto-paste disabled."
    );
}

#[test]
fn log_level_index_round_trip() {
    for level in [LogLevel::Info, LogLevel::Debug] {
        assert_eq!(parse_log_level_selection(log_level_to_index(level)), Some(level));
    }
    assert_eq!(log_level_to_index(LogLevel::Info), 0);
    assert_eq!(log_level_to_index(LogLevel::Debug), 1);
}

#[test]
fn window_texts() {
    let mut config = AppConfig::default();
    config.hotkey = "<Ctrl>r".to_string();
    assert_eq!(
        format_hotkey_line(&config, true),
        "Hotkey: <Ctrl>r (X11 session: app-level shortcut)"
    );
    assert_eq!(
        format_hotkey_line(&config, false),
        "Hotkey: <Ctrl>r (Wayland session: app-level shortcut)"
    );
    assert_eq!(
        format_hotkey_tip(&config),
        "Tip: use <Ctrl>r to start or stop recording quickly."
    );
    assert_eq!(format_model_status(true), "Model status: ready");
    assert_eq!(
        format_model_status(false),
        "Model status: missing file (open Settings to fix model path)"
    );
    assert_eq!(format_autopaste_status(true), "Auto-paste dependency: available");
    assert_eq!(
        format_autopaste_status(false),
        "Auto-paste dependency: unavailable (install ydotool/ydotoold)"
    );
    assert!(settings_hint_text().starts_with("Hotkey accepts forms like Ctrl+Alt+Space"));
}

#[test]
fn recording_flow_follows_the_window() {
    let mut flow = RecordingFlow::new();
    assert_eq!(flow.state(), AppState::Idle);
    assert_eq!(flow.toggle_action(), ToggleAction::StartRecording);
    flow.recording_started();
    assert_eq!(flow.state(), AppState::Recording);
    assert_eq!(flow.toggle_action(), ToggleAction::StopRecording);
    let first = flow.begin_transcription();
    assert_eq!(first, 1);
    assert_eq!(flow.state(), AppState::Transcribing);
    assert_eq!(flow.toggle_action(), ToggleAction::Blocked);
    assert_eq!(flow.current_transcription(), Some(1));
    assert!(!flow.finish_transcription(7, true));
    assert_eq!(flow.state(), AppState::Transcribing);
    assert!(flow.finish_transcription(1, true));
    assert_eq!(flow.state(), AppState::Idle);
    assert!(!flow.finish_transcription(1, true));

    flow.recording_started();
    let second = flow.begin_transcription();
    assert_eq!(second, 2);
    assert!(flow.finish_transcription(2, false));
    assert_eq!(flow.state(), AppState::Error);
    assert_eq!(flow.toggle_action(), ToggleAction::StartRecording);
    flow.recording_failed();
    assert_eq!(flow.state(), AppState::Error);
}

#[test]
fn transcript_actions() {
    assert_eq!(transcript_action(" \n", true, true), TranscriptAction::NoSpeech);
    assert_eq!(transcript_action("hi", false, true), TranscriptAction::Copy);
    assert_eq!(transcript_action("hi", true, true), TranscriptAction::CopyAndPaste);
    assert_eq!(transcript_action("hi", true, false), TranscriptAction::CopyUnfocused);
}

#[test]
fn app_state_labels() {
    assert_eq!(AppState::Idle.label(), "Idle");
    assert_eq!(AppState::Recording.label(), "Recording...");
    assert_eq!(AppState::Transcribing.label(), "Transcribing...");
    assert_eq!(AppState::Error.label(), "Error");
}

#[test]
fn elapsed_time_label() {
    assert_eq!(elapsed_label(0), "Recording: 00:00");
    assert_eq!(elapsed_label(65), "Recording: 01:05");
    assert_eq!(elapsed_label(600), "Recording: 10:00");
    assert_eq!(elapsed_label(6_000), "Recording: 100:00");
}

#[test]
fn startup_disables_autopaste_without_paste_tool() {
    let mut cfg = AppConfig {
        autopaste: true,
        language: Some("en".to_string()),
        model_path: "/m/ggml-base.en.bin".to_string(),
        hotkey: "<Ctrl>r".to_string(),
        log_level: LogLevel::Debug,
    };
    assert!(!disable_unavailable_autopaste(&mut cfg, true));
    assert!(cfg.autopaste);
    assert!(disable_unavailable_autopaste(&mut cfg, false));
    assert!(!cfg.autopaste);
    assert_eq!(cfg.language.as_deref(), Some("en"));
    assert_eq!(cfg.model_path, "/m/ggml-base.en.bin");
    assert_eq!(cfg.hotkey, "<Ctrl>r");
    assert_eq!(cfg.log_level, LogLevel::Debug);
    assert!(!disable_unavailable_autopaste(&mut cfg, false));
}
