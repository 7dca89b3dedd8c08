use lib::config::{data_dir, home_dir, models_dir, systemd_user_dir, whisper_bin, Config, EnvVars, KEY_RIGHTALT};
use lib::number::{format_decimal, parse_u16};
use lib::path::join;

fn env_with_home(home: Option<&str>) -> EnvVars {
    EnvVars {
        home: home.map(|h| h.to_string()),
        xdg_data_home: None,
        xdg_config_home: None,
        keyboard_device: None,
        mic_target: None,
        whisper_bin: None,
        whisper_model: None,
        whisper_ld_library_path: None,
        trigger_key: None,
    }
}

fn parse(s: &str) -> Option<u16> {
    parse_u16(&s.chars().collect())
}

#[test]
fn defaults_follow_home() {
    let env = env_with_home(Some("/home/ada"));
    let cfg = Config::from_env(&env);
    assert_eq!(cfg.whisper_bin, "/home/ada/.local/share/vtd/whisper.cpp/build/bin/whisper-cli");
    assert_eq!(cfg.whisper_model, "/home/ada/.local/share/vtd/models/ggml-large-v3-turbo.bin");
    assert_eq!(cfg.trigger_key, 100);
    assert_eq!(cfg.trigger_key, KEY_RIGHTALT);
    assert!(cfg.keyboard_device.is_none());
    assert!(cfg.mic_target.is_none());
    assert!(cfg.whisper_ld_library_path.is_none());
    assert_eq!(systemd_user_dir(&env), "/home/ada/.config/systemd/user");
}

#[test]
fn unset_home_is_root() {
    let env = env_with_home(None);
    assert_eq!(home_dir(&env), "/");
    assert_eq!(data_dir(&env), "/.local/share/vtd");
    assert_eq!(models_dir(&env), "/.local/share/vtd/models");
    assert_eq!(systemd_user_dir(&env), "/.config/systemd/user");
}

#[test]
fn xdg_dirs_take_precedence() {
    let mut env = env_with_home(Some("/home/ada"));
    env.xdg_data_home = Some("/data".to_string());
    env.xdg_config_home = Some("/conf/".to_string());
    assert_eq!(data_dir(&env), "/data/vtd");
    assert_eq!(models_dir(&env), "/data/vtd/models");
    assert_eq!(whisper_bin(&env), "/data/vtd/whisper.cpp/build/bin/whisper-cli");
    assert_eq!(systemd_user_dir(&env), "/conf/systemd/user");
}

#[test]
fn variables_override_defaults() {
    let mut env = env_with_home(Some("/home/ada"));
    env.keyboard_device = Some("/dev/input/event7".to_string());
    env.mic_target = Some("alsa_input.usb".to_string());
    env.whisper_bin = Some("/opt/whisper-cli".to_string());
    env.whisper_model = Some("/models/tiny.bin".to_string());
    env.whisper_ld_library_path = Some("/opt/rocm/lib".to_string());
    env.trigger_key = Some("97".to_string());
    let cfg = Config::from_env(&env);
    assert_eq!(cfg.keyboard_device.as_deref(), Some("/dev/input/event7"));
    assert_eq!(cfg.mic_target.as_deref(), Some("alsa_input.usb"));
    assert_eq!(cfg.whisper_bin, "/opt/whisper-cli");
    assert_eq!(cfg.whisper_model, "/models/tiny.bin");
    assert_eq!(cfg.whisper_ld_library_path.as_deref(), Some("/opt/rocm/lib"));
    assert_eq!(cfg.trigger_key, 97);
}

#[test]
fn bad_trigger_key_falls_back_to_right_alt() {
    for bad in ["", "abc", "-1", "65536", " 5", "5 ", "+", "1e3"] {
        let mut env = env_with_home(Some("/home/ada"));
        env.trigger_key = Some(bad.to_string());
        assert_eq!(Config::from_env(&env).trigger_key, 100, "{bad:?}");
    }
}

#[test]
fn parse_u16_matches_std() {
    for s in ["0", "7", "+7", "100", "00100", "65535", "065535", "65536", "99999", "", "+", "-0", "1_0", "١", " 1", "+-1", "++1"] {
        assert_eq!(parse(s), s.parse::<u16>().ok(), "{s:?}");
    }
}

#[test]
fn decimal_round_trips_through_parse() {
    for n in [0u16, 1, 9, 10, 99, 100, 4096, 65535] {
        let s = format_decimal(n as u32);
        assert_eq!(s, n.to_string());
        assert_eq!(parse(&s), Some(n));
    }
    assert_eq!(format_decimal(u32::MAX), "4294967295");
}

#[test]
fn join_follows_path_join() {
    let cases = [
        ("/home/ada", ".config"),
        ("/home/ada/", ".config"),
        ("", "x"),
        ("/a", "/b"),
        ("rel", "sub/dir"),
        ("/a", ""),
    ];
    for (base, p) in cases {
        let want = std::path::Path::new(base).join(p);
        assert_eq!(join(base, p), want.to_str().unwrap(), "{base:?} {p:?}");
    }
}

#[test]
fn empty_xdg_data_home_counts_as_unset() {
    let mut env = env_with_home(Some("/home/u"));
    env.xdg_data_home = Some(String::new());
    env.xdg_config_home = Some(String::new());
    assert_eq!(data_dir(&env), "/home/u/.local/share/vtd");
    assert_eq!(models_dir(&env), "/home/u/.local/share/vtd/models");
    assert_eq!(systemd_user_dir(&env), "systemd/user");
    let cfg = Config::from_env(&env);
    assert_eq!(cfg.whisper_bin, "/home/u/.local/share/vtd/whisper.cpp/build/bin/whisper-cli");
    assert_eq!(cfg.whisper_model, "/home/u/.local/share/vtd/models/ggml-large-v3-turbo.bin");
}
