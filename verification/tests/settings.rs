use vdora::config::{default_model_path_in, AppConfig, LogLevel};
use vdora::hotkey::{default_hotkey, global_hotkeys_supported, to_gtk_accelerator};
use vdora::hotkey::accelerator_from_tokens;

#[test]
fn default_config_has_hotkey() {
    let cfg = AppConfig::default();
    assert!(!cfg.hotkey.trim().is_empty());
    assert!(!cfg.autopaste);
    assert_eq!(cfg.log_level, LogLevel::Info);
}

#[test]
fn default_config_values() {
    let cfg = AppConfig::default();
    assert_eq!(cfg.hotkey, "<Ctrl><Alt>space");
    assert_eq!(cfg.language, None);
    assert!(cfg.model_path.ends_with("models/ggml-base.en.bin"));
    assert_eq!(LogLevel::default(), LogLevel::Info);
}

#[test]
fn default_model_path_joins_the_data_directory() {
    assert_eq!(
        default_model_path_in(Some("/home/a/.local/share/vdora")),
        "/home/a/.local/share/vdora/models/ggml-base.en.bin"
    );
    assert_eq!(
        default_model_path_in(Some("/data/")),
        "/data/models/ggml-base.en.bin"
    );
    assert_eq!(default_model_path_in(Some("")), "models/ggml-base.en.bin");
    assert_eq!(default_model_path_in(None), "./models/ggml-base.en.bin");
}

#[test]
fn log_level_names() {
    assert_eq!(LogLevel::Info.as_filter_directive(), "info");
    assert_eq!(LogLevel::Debug.as_filter_directive(), "debug");
    assert_eq!(LogLevel::Info.as_ui_label(), "info");
    assert_eq!(LogLevel::Debug.as_ui_label(), "debug");
}

#[test]
fn parses_human_readable_hotkey() {
    let parsed = to_gtk_accelerator("Ctrl+Alt+R").expect("hotkey should parse");
    assert_eq!(parsed, "<Ctrl><Alt>r");
}

#[test]
fn preserves_existing_gtk_format() {
    let parsed = to_gtk_accelerator("<Ctrl><Shift>space").expect("gtk accel should parse");
    assert_eq!(parsed, "<Ctrl><Shift>space");
}

#[test]
fn rejects_hotkey_with_only_modifiers() {
    let err = to_gtk_accelerator("Ctrl+Alt").expect_err("must fail without key");
    assert_eq!(err, "hotkey must include a non-modifier key");
}

#[test]
fn hotkey_edge_cases() {
    assert_eq!(to_gtk_accelerator("   "), Err("hotkey cannot be empty"));
    assert_eq!(to_gtk_accelerator("a+b"), Err("hotkey must have exactly one key"));
    assert_eq!(
        to_gtk_accelerator(" CONTROL + shift+ctrl + X ").as_deref(),
        Ok("<Ctrl><Shift>x")
    );
    assert_eq!(
        to_gtk_accelerator("win+meta+Logo+super+F1").as_deref(),
        Ok("<Super>f1")
    );
    assert_eq!(to_gtk_accelerator("++space++").as_deref(), Ok("space"));
    assert_eq!(to_gtk_accelerator("  <Alt>q  ").as_deref(), Ok("<Alt>q"));
    assert_eq!(
        to_gtk_accelerator("Shift+Alt+ÄB").as_deref(),
        Ok("<Shift><Alt>äb")
    );
    let default = default_hotkey();
    assert_eq!(to_gtk_accelerator(default).as_deref(), Ok(default));
}

#[test]
fn global_hotkeys_only_on_x11() {
    assert!(global_hotkeys_supported(Some("x11")));
    assert!(!global_hotkeys_supported(Some("wayland")));
    assert!(!global_hotkeys_supported(Some("X11")));
    assert!(!global_hotkeys_supported(None));
}

#[test]
fn accelerator_from_normalized_tokens() {
    let toks = |l: &[&str]| l.iter().map(|s| s.to_string()).collect::<Vec<String>>();
    assert_eq!(
        accelerator_from_tokens(&toks(&["ctrl", "", "alt", "ctrl", "r"])).as_deref(),
        Ok("<Ctrl><Alt>r")
    );
    assert_eq!(
        accelerator_from_tokens(&toks(&["shift"])),
        Err("hotkey must include a non-modifier key")
    );
    assert_eq!(
        accelerator_from_tokens(&toks(&["a", "b", "ctrl"])),
        Err("hotkey must have exactly one key")
    );
    assert_eq!(accelerator_from_tokens(&toks(&["Ctrl", "x"])), Err("hotkey must have exactly one key"));
    assert_eq!(accelerator_from_tokens(&toks(&[])), Err("hotkey must include a non-modifier key"));
}
