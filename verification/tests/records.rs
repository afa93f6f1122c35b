use vdora::diagnostics::recent_errors_text;
use vdora::audio::recorder::{
    is_stale_recording, is_vdora_recording_path, recording_file_ready, Recorder,
};
use vdora::diagnostics::{
    collect_health, diagnostics_bundle, diagnostics_bundle_at, diagnostics_file_name,
    health_lines, HealthSnapshot, ReportEntry, Reporter,
};
use vdora::config::{AppConfig, LogLevel};
use vdora::diagnostics::{next_export_step, ExportStep, WriteOutcome, EXPORT_ATTEMPTS};

#[test]
fn matches_vdora_temp_recording_names() {
    assert!(is_vdora_recording_path("/tmp/vdora-abc.wav"));
    assert!(is_vdora_recording_path("vdora-123.wav"));
}

#[test]
fn ignores_non_vdora_temp_recordings() {
    assert!(!is_vdora_recording_path("/tmp/vdora-abc.mp3"));
    assert!(!is_vdora_recording_path("/tmp/other-abc.wav"));
    assert!(!is_vdora_recording_path("/tmp/vdora.wav"));
}

#[test]
fn recording_names_follow_the_final_component() {
    assert!(is_vdora_recording_path("/tmp/x/./vdora-1.wav/"));
    assert!(!is_vdora_recording_path("/tmp/vdora-1.wav/.."));
    assert!(!is_vdora_recording_path("/"));
    assert!(!is_vdora_recording_path(""));
    assert!(!is_vdora_recording_path("/tmp/vdora-dir/other.wav"));
}

#[test]
fn stale_recordings_need_a_known_age() {
    let _recorder = Recorder::new();
    assert!(is_stale_recording("/tmp/vdora-a.wav", Some(600), 600));
    assert!(is_stale_recording("/tmp/vdora-a.wav", Some(601), 600));
    assert!(!is_stale_recording("/tmp/vdora-a.wav", Some(599), 600));
    assert!(!is_stale_recording("/tmp/vdora-a.wav", None, 600));
    assert!(!is_stale_recording("/tmp/other.wav", Some(10_000), 600));
}

#[test]
fn recording_layout_checks() {
    assert!(recording_file_ready(1, 16_000, 4_000));
    assert!(!recording_file_ready(2, 16_000, 4_000));
    assert!(!recording_file_ready(1, 44_100, 4_000));
    assert!(!recording_file_ready(1, 16_000, 3_999));
}

#[test]
fn reporter_keeps_only_latest_entries() {
    let mut reporter = Reporter::new(2);
    reporter.record_error("test", "one");
    reporter.record_error("test", "two");
    reporter.record_error("test", "three");

    let snapshot = reporter.snapshot();
    assert_eq!(snapshot.len(), 2);
    assert_eq!(snapshot[0].message, "two");
    assert_eq!(snapshot[1].message, "three");
}

#[test]
fn reporter_stamps_entries_with_the_clock() {
    let mut reporter = Reporter::new(5);
    reporter.record_error("src", "msg");
    let snapshot = reporter.snapshot();
    assert_eq!(snapshot.len(), 1);
    assert_eq!(snapshot[0].source, "src");
    assert!(snapshot[0].unix_seconds > 1_600_000_000);
}

#[test]
fn reporter_without_room_keeps_nothing() {
    let mut reporter = Reporter::new(0);
    reporter.record_error("a", "b");
    assert!(reporter.snapshot().is_empty());
}

#[test]
fn health_lines_include_expected_sections() {
    let health = HealthSnapshot {
        session_type: "wayland".to_string(),
        pw_record_available: true,
        wl_copy_available: Some(false),
        ydotool_available: true,
        model_ready: false,
    };

    let lines = health_lines(&health).join("\n");
    assert!(lines.contains("Session type: wayland"));
    assert!(lines.contains("pw-record: available"));
    assert!(lines.contains("wl-copy: missing"));
    assert!(lines.contains("model file: missing"));
}

#[test]
fn health_lines_exact() {
    let health = HealthSnapshot {
        session_type: "  ".to_string(),
        pw_record_available: false,
        wl_copy_available: None,
        ydotool_available: false,
        model_ready: true,
    };
    assert_eq!(
        health_lines(&health),
        vec![
            "Session type: unknown".to_string(),
            "pw-record: missing".to_string(),
            "wl-copy: n/a (non-Wayland session)".to_string(),
            "ydotool: missing".to_string(),
            "model file: available".to_string(),
        ]
    );
    assert_eq!(health.failure_count(), 1);
}

#[test]
fn health_failures_count_required_components() {
    let mut health = collect_health(Some("x11"), false, true, true, true, true);
    assert_eq!(health.failure_count(), 0);
    assert_eq!(health.wl_copy_available, None);
    health.pw_record_available = false;
    health.model_ready = false;
    assert_eq!(health.failure_count(), 2);
}

#[test]
fn collect_health_detects_wayland() {
    let h = collect_health(Some("WayLand"), false, true, false, true, false);
    assert_eq!(h.session_type, "WayLand");
    assert_eq!(h.wl_copy_available, Some(false));
    let h = collect_health(None, true, true, true, false, true);
    assert_eq!(h.session_type, "unknown");
    assert_eq!(h.wl_copy_available, Some(true));
    assert!(!h.ydotool_available);
    let h = collect_health(None, false, true, true, false, true);
    assert_eq!(h.wl_copy_available, None);
}

#[test]
fn bundle_contains_config_and_errors() {
    let mut config = AppConfig::default();
    config.log_level = LogLevel::Debug;
    let health = HealthSnapshot {
        session_type: "x11".to_string(),
        pw_record_available: true,
        wl_copy_available: None,
        ydotool_available: false,
        model_ready: true,
    };
    let errors = vec![ReportEntry {
        unix_seconds: 123,
        source: "recorder".to_string(),
        message: "failed to start".to_string(),
    }];

    let bundle = diagnostics_bundle(&config, &health, &errors);
    assert!(bundle.contains("log_level: debug"));
    assert!(bundle.contains("errors:"));
    assert!(bundle.contains("failed to start"));
}

#[test]
fn bundle_text_exact() {
    let config = AppConfig {
        autopaste: true,
        language: Some("en".to_string()),
        model_path: "/m.bin".to_string(),
        hotkey: "<Ctrl>r".to_string(),
        log_level: LogLevel::Info,
    };
    let health = HealthSnapshot {
        session_type: "wayland".to_string(),
        pw_record_available: true,
        wl_copy_available: Some(true),
        ydotool_available: true,
        model_ready: false,
    };
    let expected_head = "Vdora diagnostics bundle\n\
generated_at_unix: 42\n\
app_version: 0.1.0\n\
session_type: wayland\n\
model_path: /m.bin\n\
language: en\n\
autopaste_enabled: true\n\
hotkey: <Ctrl>r\n\
log_level: info\n\
pw_record_available: true\n\
wl_copy_available: true\n\
ydotool_available: true\n\
model_ready: false\n\
errors:\n";
    let empty = diagnostics_bundle_at(&config, &health, &[], 42);
    assert_eq!(empty, format!("{expected_head}  - none"));
    let errors = vec![
        ReportEntry { unix_seconds: 1, source: "a".to_string(), message: "x".to_string() },
        ReportEntry { unix_seconds: 20, source: "b".to_string(), message: "y z".to_string() },
    ];
    let full = diagnostics_bundle_at(&config, &health, &errors, 42);
    assert_eq!(full, format!("{expected_head}  - [1] [a] x\n  - [20] [b] y z"));
}

#[test]
fn diagnostics_file_names_are_unique_for_nonce() {
    let a = diagnostics_file_name(1234, 0);
    let b = diagnostics_file_name(1234, 1);
    assert_ne!(a, b);
    assert!(a.ends_with(".log"));
    assert!(b.ends_with(".log"));
}

#[test]
fn diagnostics_file_names_exact() {
    assert_eq!(diagnostics_file_name(1234, 0), "diagnostics-1234.log");
    assert_eq!(diagnostics_file_name(1234, 31), "diagnostics-1234-31.log");
    assert_eq!(diagnostics_file_name(0, 10), "diagnostics-0-10.log");
    assert_eq!(
        diagnostics_file_name(u128::MAX, u32::MAX),
        format!("diagnostics-{}-{}.log", u128::MAX, u32::MAX)
    );
}

#[test]
fn recent_errors_newest_first() {
    assert_eq!(recent_errors_text(&[]), "No recent errors");
    let errors = vec![
        ReportEntry { unix_seconds: 1, source: "a".to_string(), message: "first".to_string() },
        ReportEntry { unix_seconds: 2, source: "b".to_string(), message: "second".to_string() },
    ];
    assert_eq!(recent_errors_text(&errors), "[2] b: second\n[1] a: first");
}

#[test]
fn error_log_after_many_recordings() {
    for capacity in 0..4usize {
        let mut reporter = Reporter::new(capacity);
        for k in 0..7usize {
            reporter.record_error("s", &format!("m{k}"));
            let snapshot = reporter.snapshot();
            let expected = (k + 1).min(capacity);
            assert_eq!(snapshot.len(), expected);
            for (i, entry) in snapshot.iter().enumerate() {
                assert_eq!(entry.message, format!("m{}", k + 1 - expected + i));
            }
        }
    }
}

#[test]
fn export_retries_under_new_names() {
    assert_eq!(next_export_step(0, WriteOutcome::Written), ExportStep::Done);
    assert_eq!(next_export_step(0, WriteOutcome::Failed), ExportStep::Fail);
    assert_eq!(next_export_step(0, WriteOutcome::AlreadyExists), ExportStep::TryNonce(1));
    assert_eq!(next_export_step(30, WriteOutcome::AlreadyExists), ExportStep::TryNonce(31));
    assert_eq!(next_export_step(31, WriteOutcome::AlreadyExists), ExportStep::Exhausted);
    assert_eq!(next_export_step(u32::MAX, WriteOutcome::AlreadyExists), ExportStep::Exhausted);
    let mut nonce = 0;
    let mut attempts = 1;
    while let ExportStep::TryNonce(n) = next_export_step(nonce, WriteOutcome::AlreadyExists) {
        nonce = n;
        attempts += 1;
    }
    assert_eq!(attempts, EXPORT_ATTEMPTS);
}
