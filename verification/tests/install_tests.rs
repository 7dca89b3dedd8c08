use lib::config::EnvVars;
use lib::install::{
    download_command, env_lines, is_known_model, known_models, known_models_text, model_file,
    model_path, model_url, models_summary, partial_path, unit_file,
};

fn env() -> EnvVars {
    EnvVars {
        home: Some("/home/ada".to_string()),
        xdg_data_home: None,
        xdg_config_home: None,
        keyboard_device: None,
        mic_target: None,
        whisper_bin: None,
        whisper_model: None,
        whisper_ld_library_path: None,
        trigger_key: None,
    }
}

#[test]
fn known_models_are_listed() {
    let names = known_models();
    assert_eq!(names.len(), 12);
    for n in &names {
        assert!(is_known_model(n));
    }
    assert!(is_known_model("large-v3-turbo"));
    assert!(!is_known_model("large"));
    assert!(!is_known_model("tiny.en "));
    assert!(!is_known_model(""));
    assert_eq!(
        known_models_text(),
        "tiny, tiny.en, base, base.en, small, small.en, medium, medium.en, large-v1, large-v2, large-v3, large-v3-turbo"
    );
}

#[test]
fn model_locations() {
    let e = env();
    assert_eq!(model_file("base.en"), "ggml-base.en.bin");
    assert_eq!(model_path(&e, "tiny"), "/home/ada/.local/share/vtd/models/ggml-tiny.bin");
    assert_eq!(partial_path(&e, "tiny"), "/home/ada/.local/share/vtd/models/ggml-tiny.bin.part");
    assert_eq!(
        model_url("large-v3-turbo"),
        "https://huggingface.co/ggerganov/whisper.cpp/resolve/main/ggml-large-v3-turbo.bin"
    );
}

#[test]
fn download_arguments() {
    let c = download_command("/m/x.part", "https://h/x");
    assert_eq!(c.program, "curl");
    assert_eq!(c.args, vec!["-L", "--fail", "--progress-bar", "-o", "/m/x.part", "https://h/x"]);
}

#[test]
fn unit_environment_forwards_set_variables() {
    let mut e = env();
    assert_eq!(env_lines("/m/ggml-tiny.bin", &e), "Environment=VTD_WHISPER_MODEL=/m/ggml-tiny.bin\n");
    e.trigger_key = Some("97".to_string());
    e.keyboard_device = Some("/dev/input/event3".to_string());
    e.whisper_model = Some("/own/model.bin".to_string());
    assert_eq!(
        env_lines("/m/ggml-tiny.bin", &e),
        "Environment=VTD_WHISPER_MODEL=/m/ggml-tiny.bin\nEnvironment=VTD_KEYBOARD_DEVICE=/dev/input/event3\nEnvironment=VTD_WHISPER_MODEL=/own/model.bin\nEnvironment=VTD_TRIGGER_KEY=97\n"
    );
}

#[test]
fn unit_file_text() {
    let unit = unit_file("/usr/bin/vtd", "Environment=A=b\n");
    assert_eq!(
        unit,
        "[Unit]\nDescription=vtd push-to-talk voice dictation daemon\nAfter=graphical-session.target pipewire.service\n\n[Service]\nExecStart=/usr/bin/vtd\nEnvironment=A=b\nRestart=on-failure\nRestartSec=2\n\n[Install]\nWantedBy=default.target\n"
    );
}

#[test]
fn models_listing() {
    assert_eq!(models_summary(&vec![]), "(none)");
    assert_eq!(models_summary(&vec!["ggml-tiny.bin".to_string(), "x".to_string()]), "ggml-tiny.bin, x");
}
