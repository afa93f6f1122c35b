use vdora::stt::whisper::{
    check_wav_frames, check_wav_sample_rate, normalize_transcript, transcript_from_segments,
    WavError, WhisperService,
};
use vdora::tray::{
    icon_name_for_status, resolve_icon_name, tool_tip_description, TrayEvent, MENU_HIDE_WINDOW,
    MENU_QUIT, MENU_SHOW_WINDOW,
};

#[test]
fn normalizes_whitespace() {
    let cleaned = normalize_transcript(" hello\n\tworld   from  vdora ");
    assert_eq!(cleaned, "hello world from vdora");
}

#[test]
fn strips_non_speech_markers() {
    let cleaned = normalize_transcript("[BLANK_AUDIO] hello [MUSIC] world");
    assert_eq!(cleaned, "hello world");
}

#[test]
fn keeps_empty_empty() {
    let cleaned = normalize_transcript("   \n\t  ");
    assert_eq!(cleaned, "");
}

#[test]
fn normalizing_twice_changes_nothing() {
    for input in [
        "  a\u{00A0}b \u{3000} c ",
        "[NOISE][NOISE] [SILENCE] x [INAUDIBLE]",
        "[LAUGHTER]",
        "one",
        "",
    ] {
        let once = normalize_transcript(input);
        assert_eq!(normalize_transcript(&once), once);
        assert_eq!(once.trim(), once);
    }
    assert_eq!(normalize_transcript("a\u{00A0}b"), "a b");
    assert_eq!(normalize_transcript("[NOISE][NOISE] x"), "[NOISE][NOISE] x");
}

#[test]
fn segments_are_joined_and_cleaned() {
    let segments = vec![
        " Hello there. ".to_string(),
        "[MUSIC]".to_string(),
        "\tGeneral  Kenobi ".to_string(),
    ];
    assert_eq!(transcript_from_segments(&segments), "Hello there. General Kenobi");
    assert_eq!(transcript_from_segments(&Vec::new()), "");
}

#[test]
fn whisper_service_keeps_its_settings() {
    let service = WhisperService::new("/m.bin".to_string(), Some("en".to_string()));
    assert_eq!(service.model_path(), "/m.bin");
    assert_eq!(service.language(), Some("en"));
    let auto = WhisperService::new("/m.bin".to_string(), None);
    assert_eq!(auto.language(), None);
}

#[test]
fn wav_checks() {
    assert_eq!(check_wav_sample_rate(16_000), Ok(()));
    let err = check_wav_sample_rate(44_100).unwrap_err();
    assert_eq!(err, WavError::SampleRate(44_100));
    assert_eq!(
        err.message(),
        "invalid wav sample rate: expected 16000Hz, got 44100Hz"
    );
    assert_eq!(check_wav_frames(0, 10_000), Err(WavError::ZeroChannels));
    assert_eq!(check_wav_frames(1, 3_999), Err(WavError::TooShort));
    assert_eq!(check_wav_frames(1, 4_000), Ok(4_000));
    assert_eq!(check_wav_frames(2, 7_999), Ok(4_000));
    assert_eq!(check_wav_frames(2, 7_998), Err(WavError::TooShort));
    assert_eq!(check_wav_frames(2, usize::MAX), Ok(usize::MAX / 2 + 1));
    assert_eq!(
        WavError::TooShort.message(),
        "recording too short: need at least 250ms of audio"
    );
    assert_eq!(WavError::ZeroChannels.message(), "invalid wav file: zero channels");
}

#[test]
fn tray_menu_labels_do_not_expose_record_toggle() {
    let labels = [MENU_SHOW_WINDOW, MENU_HIDE_WINDOW, MENU_QUIT];
    assert!(labels.contains(&"Show Window"));
    assert!(labels.contains(&"Hide Window"));
    assert!(labels.contains(&"Quit"));
    assert!(!labels.iter().any(|label| label.contains("Recording")));
}

#[test]
fn tray_icon_switches_to_record_icon_when_recording() {
    assert_eq!(
        icon_name_for_status("vdora", "Recording..."),
        "media-record-symbolic"
    );
    assert_eq!(icon_name_for_status("vdora", "Idle"), "vdora");
    assert_eq!(
        icon_name_for_status("audio-input-microphone-symbolic", "Transcribing..."),
        "audio-input-microphone-symbolic"
    );
}

#[test]
fn tray_texts() {
    assert_eq!(resolve_icon_name(true), "vdora");
    assert_eq!(resolve_icon_name(false), "audio-input-microphone-symbolic");
    assert_eq!(tool_tip_description("Idle"), "Status: Idle");
    assert_ne!(TrayEvent::ShowWindow, TrayEvent::Quit);
}
