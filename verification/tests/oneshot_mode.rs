use vdora::oneshot::{
    existing_run_action, model_fetch_needed, parse_args, parse_pid, parse_state,
    printed_notification_id, render_state, stored_notification_id, ArgError, ExistingRun, Mode,
    ModelPathError, State,
};
use vdora::text::{parse_u64, u64_to_string};
use vdora::oneshot::oneshot_outcome;

fn args(list: &[&str]) -> Vec<String> {
    list.iter().map(|s| s.to_string()).collect()
}

#[test]
fn command_line_modes() {
    assert!(matches!(parse_args(&args(&[])), Ok(Mode::Gui)));
    assert!(matches!(parse_args(&args(&["-d", "5"])), Ok(Mode::Gui)));
    assert!(matches!(parse_args(&args(&["--oneshot", "-h", "--bogus"])), Ok(Mode::Help)));
    match parse_args(&args(&["voice", "--duration", "+12", "--no-notify"])) {
        Ok(Mode::Run(o)) => {
            assert_eq!(o.duration_secs, 12);
            assert!(o.no_notify);
        }
        _ => panic!("a one-shot run was expected"),
    }
    match parse_args(&args(&["--oneshot"])) {
        Ok(Mode::Run(o)) => {
            assert_eq!(o.duration_secs, 30);
            assert!(!o.no_notify);
        }
        _ => panic!("a one-shot run was expected"),
    }
}

#[test]
fn command_line_errors() {
    let err = parse_args(&args(&["--oneshot", "-d"])).unwrap_err();
    assert!(matches!(err, ArgError::MissingValue(_)));
    assert_eq!(err.message(), "-d requires a value in seconds");
    let err = parse_args(&args(&["--oneshot", "-d", "ten"])).unwrap_err();
    assert_eq!(err.message(), "invalid duration: ten");
    let err = parse_args(&args(&["--verbose"])).unwrap_err();
    assert_eq!(err.message(), "unknown argument: --verbose");
    let err = parse_args(&args(&["--oneshot", "-d", "0"])).unwrap_err();
    assert!(matches!(err, ArgError::ZeroDuration));
    assert_eq!(err.message(), "duration must be greater than zero");
    let err = parse_args(&args(&["-d", "18446744073709551616"])).unwrap_err();
    assert!(matches!(err, ArgError::InvalidDuration(_)));
}

#[test]
fn pids_are_positive_decimals() {
    assert_eq!(parse_pid("0"), None);
    assert_eq!(parse_pid("42"), Some(42));
    assert_eq!(parse_pid("+7"), Some(7));
    assert_eq!(parse_pid("007"), Some(7));
    assert_eq!(parse_pid("4294967295"), Some(u32::MAX));
    assert_eq!(parse_pid("4294967296"), None);
    assert_eq!(parse_pid(""), None);
    assert_eq!(parse_pid("+"), None);
    assert_eq!(parse_pid("-1"), None);
    assert_eq!(parse_pid(" 1"), None);
}

#[test]
fn numbers_round_trip() {
    for n in [0u64, 9, 10, 1234, u64::MAX] {
        assert_eq!(parse_u64(&u64_to_string(n)), Some(n));
        assert_eq!(u64_to_string(n), n.to_string());
    }
}

#[test]
fn state_file_round_trip() {
    let state = State {
        parent_pid: Some(1234),
        recorder_pid: Some(99),
        phase: Some("recording".to_string()),
    };
    let text = render_state(&state);
    assert_eq!(text, "parent_pid=1234\nrecorder_pid=99\nphase=recording\n");
    let back = parse_state(&text);
    assert_eq!(back.parent_pid, Some(1234));
    assert_eq!(back.recorder_pid, Some(99));
    assert_eq!(back.phase.as_deref(), Some("recording"));

    let empty = State { parent_pid: Some(5), recorder_pid: None, phase: None };
    let back = parse_state(&render_state(&empty));
    assert_eq!(back.parent_pid, Some(5));
    assert_eq!(back.recorder_pid, None);
    assert_eq!(back.phase.as_deref(), Some(""));
}

#[test]
fn state_file_parsing_rules() {
    let st = parse_state("phase=a=b\r\nbogus\nparent_pid=x\nrecorder_pid=3\nparent_pid=8\nphase=last\r");
    assert_eq!(st.phase.as_deref(), Some("last\r"));
    assert_eq!(st.parent_pid, Some(8));
    assert_eq!(st.recorder_pid, Some(3));
    let st = parse_state("phase=a=b\r\n");
    assert_eq!(st.phase.as_deref(), Some("a=b"));
    let st = parse_state("");
    assert_eq!(st.parent_pid, None);
    assert_eq!(st.phase, None);
}

#[test]
fn earlier_runs_are_handled() {
    let recording = State {
        parent_pid: Some(10),
        recorder_pid: Some(11),
        phase: Some("recording".to_string()),
    };
    assert!(matches!(existing_run_action(&recording, true, true), ExistingRun::StopRecorder(11)));
    match existing_run_action(&recording, true, false) {
        ExistingRun::AlreadyRunning(p) => assert_eq!(p, "recording"),
        _ => panic!("expected the busy answer"),
    }
    assert!(matches!(existing_run_action(&recording, false, true), ExistingRun::Proceed));
    let no_phase = State { parent_pid: Some(10), recorder_pid: None, phase: None };
    match existing_run_action(&no_phase, true, true) {
        ExistingRun::AlreadyRunning(p) => assert_eq!(p, "running"),
        _ => panic!("expected the busy answer"),
    }
    assert!(matches!(existing_run_action(&State::default(), true, true), ExistingRun::Proceed));
}

#[test]
fn notification_ids() {
    assert_eq!(stored_notification_id(" 17\n").as_deref(), Some("17"));
    assert_eq!(stored_notification_id("  \n"), None);
    assert_eq!(printed_notification_id("42\n").as_deref(), Some("42"));
    assert_eq!(printed_notification_id("4x2"), None);
    assert_eq!(printed_notification_id(""), None);
}

#[test]
fn model_fetch_decisions() {
    assert!(matches!(model_fetch_needed("/any/where.bin", true), Ok(false)));
    assert!(matches!(
        model_fetch_needed("/home/a/models/ggml-base.en.bin", false),
        Ok(true)
    ));
    let err = model_fetch_needed("/home/a/models/other.bin", false).unwrap_err();
    assert!(matches!(err, ModelPathError::NotDefault(_)));
    assert_eq!(
        err.message(),
        "missing model file at /home/a/models/other.bin. Only the default model is auto-downloaded."
    );
    let err = model_fetch_needed("/", false).unwrap_err();
    assert_eq!(err.message(), "invalid model path: /");
}

#[test]
fn desktop_shortcut_command_line() {
    match parse_args(&args(&["--oneshot", "--duration", "30"])) {
        Ok(Mode::Run(o)) => {
            assert_eq!(o.duration_secs, 30);
            assert!(!o.no_notify);
        }
        _ => panic!("a one-shot run was expected"),
    }
}

#[test]
fn oneshot_outcome_messages() {
    assert_eq!(oneshot_outcome(false, false), "Transcript copied to clipboard.");
    assert_eq!(oneshot_outcome(false, true), "Transcript copied to clipboard.");
    assert_eq!(oneshot_outcome(true, true), "Transcript copied and pasted.");
    assert_eq!(oneshot_outcome(true, false), "Transcript copied. Auto-paste failed.");
}
