use lib::config::{Config, EnvVars};
use lib::daemon::{
    is_trigger_event, key_event_fields, recorder_command, recording_path, text_to_type,
    transcriber_command, transcription_text, typer_command, Action, Daemon, Event, EVENT_SIZE,
    EV_KEY, MIN_RECORDING_NANOS, RELEASE_DEBOUNCE_NANOS,
};

const MS: u64 = 1_000_000;

fn is_nothing(a: &Action) -> bool {
    matches!(a, Action::Nothing)
}

#[test]
fn first_pulse_starts_recording() {
    let mut d = Daemon::new();
    assert!(!d.is_recording());
    assert!(matches!(d.step(Event::KeyPulse { now: 10 * MS }), Action::StartRecording));
    assert!(is_nothing(&d.step(Event::RecordingStarted { now: 11 * MS })));
    assert!(d.is_recording());
    assert_eq!(d.last_pulse, Some(10 * MS));
    assert_eq!(d.recording_since, Some(11 * MS));
}

#[test]
fn pulses_while_recording_start_nothing() {
    let mut d = Daemon::new();
    d.step(Event::KeyPulse { now: 0 });
    d.step(Event::RecordingStarted { now: 0 });
    for t in 1..20 {
        assert!(is_nothing(&d.step(Event::KeyPulse { now: t * 100 * MS })));
        assert!(is_nothing(&d.step(Event::Tick { now: t * 100 * MS + 50 * MS })));
    }
    assert!(d.is_recording());
}

#[test]
fn held_key_with_gaps_up_to_debounce_keeps_recording() {
    let mut d = Daemon::new();
    d.step(Event::KeyPulse { now: 0 });
    d.step(Event::RecordingStarted { now: 0 });
    assert!(is_nothing(&d.step(Event::Tick { now: RELEASE_DEBOUNCE_NANOS })));
    assert!(d.is_recording());
}

#[test]
fn release_after_debounce_transcribes() {
    let mut d = Daemon::new();
    d.step(Event::KeyPulse { now: 0 });
    d.step(Event::RecordingStarted { now: 0 });
    d.step(Event::KeyPulse { now: 400 * MS });
    assert!(is_nothing(&d.step(Event::Tick { now: 800 * MS })));
    match d.step(Event::Tick { now: 901 * MS }) {
        Action::TranscribeRecording { duration } => assert_eq!(duration, 901 * MS),
        _ => panic!("expected the recording to be transcribed"),
    }
    assert!(!d.is_recording());
    assert_eq!(d.last_pulse, None);
}

#[test]
fn short_recording_is_discarded() {
    let mut d = Daemon::new();
    d.step(Event::KeyPulse { now: 1000 * MS });
    d.step(Event::RecordingStarted { now: 1300 * MS });
    match d.step(Event::Tick { now: 1501 * MS }) {
        Action::DiscardRecording { duration } => {
            assert_eq!(duration, 201 * MS);
            assert!(duration < MIN_RECORDING_NANOS);
        }
        _ => panic!("expected the recording to be discarded"),
    }
    assert!(!d.is_recording());
}

#[test]
fn failed_start_leaves_daemon_idle() {
    let mut d = Daemon::new();
    assert!(matches!(d.step(Event::KeyPulse { now: 0 }), Action::StartRecording));
    assert!(is_nothing(&d.step(Event::RecordingFailed)));
    assert!(!d.is_recording());
    assert!(is_nothing(&d.step(Event::Tick { now: 10_000 * MS })));
    assert!(matches!(d.step(Event::KeyPulse { now: 10_001 * MS }), Action::StartRecording));
}

#[test]
fn ticks_without_recording_do_nothing() {
    let mut d = Daemon::new();
    assert!(is_nothing(&d.step(Event::Tick { now: 5 })));
    assert_eq!(d.recording_since, None);
    assert_eq!(d.last_pulse, None);
}

#[test]
fn clock_going_back_counts_as_no_time() {
    let mut d = Daemon::new();
    d.step(Event::KeyPulse { now: 10_000 * MS });
    d.step(Event::RecordingStarted { now: 10_000 * MS });
    assert!(is_nothing(&d.step(Event::Tick { now: 0 })));
    assert!(d.is_recording());
}

#[test]
fn raw_event_fields() {
    let mut buf = [0u8; EVENT_SIZE];
    buf[16..18].copy_from_slice(&EV_KEY.to_ne_bytes());
    buf[18..20].copy_from_slice(&100u16.to_ne_bytes());
    let (ty, code) = key_event_fields(&buf);
    assert_eq!(ty, EV_KEY);
    assert_eq!(code, 100);
    assert!(is_trigger_event(ty, code, 100));
    assert!(!is_trigger_event(ty, code, 97));
    assert!(!is_trigger_event(4, 100, 100));
    let mut other = [0u8; EVENT_SIZE];
    other[16..18].copy_from_slice(&0x0102u16.to_ne_bytes());
    other[18..20].copy_from_slice(&0x0304u16.to_ne_bytes());
    assert_eq!(key_event_fields(&other), (0x0102, 0x0304));
}

#[test]
fn recorder_arguments() {
    let c = recorder_command(&None, "/tmp/vtd-42.wav");
    assert_eq!(c.program, "pw-record");
    assert_eq!(c.args, vec!["--rate", "16000", "--channels", "1", "/tmp/vtd-42.wav"]);
    assert!(c.library_path.is_none());
    let c = recorder_command(&Some("55".to_string()), "/tmp/x.wav");
    assert_eq!(c.args, vec!["--rate", "16000", "--channels", "1", "--target", "55", "/tmp/x.wav"]);
}

#[test]
fn recording_file_name() {
    assert_eq!(recording_path("/tmp", 4242), "/tmp/vtd-4242.wav");
    assert_eq!(recording_path("/tmp/", 0), "/tmp/vtd-0.wav");
}

#[test]
fn transcriber_arguments() {
    let env = EnvVars {
        home: Some("/home/ada".to_string()),
        xdg_data_home: None,
        xdg_config_home: None,
        keyboard_device: None,
        mic_target: None,
        whisper_bin: Some("/opt/whisper-cli".to_string()),
        whisper_model: Some("/m/ggml-base.bin".to_string()),
        whisper_ld_library_path: Some("/opt/rocm/lib".to_string()),
        trigger_key: None,
    };
    let cfg = Config::from_env(&env);
    let c = transcriber_command(&cfg, "/tmp/vtd-1.wav");
    assert_eq!(c.program, "/opt/whisper-cli");
    assert_eq!(c.args, vec!["-m", "/m/ggml-base.bin", "-f", "/tmp/vtd-1.wav", "-nt", "-np"]);
    assert_eq!(c.library_path.as_deref(), Some("/opt/rocm/lib"));
}

#[test]
fn typer_arguments() {
    let c = typer_command("-rf hello");
    assert_eq!(c.program, "ydotool");
    assert_eq!(c.args, vec!["type", "--", "-rf hello"]);
}

#[test]
fn transcription_is_trimmed() {
    assert_eq!(transcription_text(b"  Hello there.\n").as_deref(), Some("Hello there."));
    assert_eq!(transcription_text(b" \n\t ").as_deref(), None);
    assert_eq!(transcription_text(b"").as_deref(), None);
    assert_eq!(text_to_type("\u{3000}x y\u{a0}").as_deref(), Some("x y"));
}

#[test]
fn invalid_utf8_is_replaced() {
    assert_eq!(transcription_text(b" caf\xff \n").as_deref(), Some("caf\u{fffd}"));
    assert_eq!(transcription_text("é".as_bytes()).as_deref(), Some("é"));
}

#[test]
fn pulse_before_start_is_reported_asks_for_nothing() {
    let mut d = Daemon::new();
    assert!(matches!(d.step(Event::KeyPulse { now: 0 }), Action::StartRecording));
    assert!(d.starting);
    assert!(is_nothing(&d.step(Event::KeyPulse { now: 50 * MS })));
    assert!(is_nothing(&d.step(Event::RecordingStarted { now: 60 * MS })));
    assert!(!d.starting);
    assert_eq!(d.recording_since, Some(60 * MS));
}

#[test]
fn unasked_reports_change_nothing() {
    let mut d = Daemon::new();
    assert!(is_nothing(&d.step(Event::RecordingStarted { now: 5 })));
    assert!(!d.is_recording());
    assert!(is_nothing(&d.step(Event::RecordingFailed)));
    assert!(!d.starting);
}
