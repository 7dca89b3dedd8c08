use vstd::prelude::*;
use vstd::string::StrSliceExecFns;
use vstd::string::StringExecFns;

use crate::number::{decimal_string, lemma_parse_decimal_u16, parse_u16, parse_u16_spec};
use crate::path::{join, join_path};
use crate::text::chars_of;

verus! {

/// KEY_RIGHTALT from linux/input-event-codes.h
pub const KEY_RIGHTALT: u16 = 100;

/// The environment variables that the daemon and its installer read, each
/// `None` where it is unset (or not valid Unicode).
pub struct EnvVars {
    pub home: Option<String>,
    pub xdg_data_home: Option<String>,
    pub xdg_config_home: Option<String>,
    pub keyboard_device: Option<String>,
    pub mic_target: Option<String>,
    pub whisper_bin: Option<String>,
    pub whisper_model: Option<String>,
    pub whisper_ld_library_path: Option<String>,
    pub trigger_key: Option<String>,
}

/// The daemon's settings; paths are held as strings.
pub struct Config {
    pub keyboard_device: Option<String>,
    pub mic_target: Option<String>,
    pub whisper_bin: String,
    pub whisper_model: String,
    pub whisper_ld_library_path: Option<String>,
    pub trigger_key: u16,
}

/// The characters of an optional string.
pub open spec fn opt_view(o: Option<String>) -> Option<Seq<char>> {
    match o {
        Some(s) => Some(s@),
        None => None,
    }
}

/// An optional string's characters, or `default` where it is absent.
pub open spec fn or_default(o: Option<String>, default: Seq<char>) -> Seq<char> {
    match o {
        Some(s) => s@,
        None => default,
    }
}

/// An XDG base directory variable's value, or `default` where it is unset or
/// empty: the XDG base directory rules treat an empty value as unset.
pub open spec fn xdg_or_default(o: Option<String>, default: Seq<char>) -> Seq<char> {
    match o {
        Some(s) => if s@.len() > 0 {
            s@
        } else {
            default
        },
        None => default,
    }
}

/// The home directory: `$HOME`, or `/` where it is unset.
pub open spec fn home_dir_spec(env: EnvVars) -> Seq<char> {
    or_default(env.home, "/"@)
}

/// vtd's data directory: `$XDG_DATA_HOME/vtd`, with `~/.local/share` in
/// place of an unset or empty `$XDG_DATA_HOME`.
pub open spec fn data_dir_spec(env: EnvVars) -> Seq<char> {
    join_path(xdg_or_default(env.xdg_data_home, join_path(home_dir_spec(env), ".local/share"@)), "vtd"@)
}

/// Where downloaded models are kept: `models` under the data directory.
pub open spec fn models_dir_spec(env: EnvVars) -> Seq<char> {
    join_path(data_dir_spec(env), "models"@)
}

/// The systemd user unit directory: `$XDG_CONFIG_HOME/systemd/user`, with
/// `~/.config` in place of an unset `$XDG_CONFIG_HOME`.
pub open spec fn systemd_user_dir_spec(env: EnvVars) -> Seq<char> {
    join_path(
        or_default(env.xdg_config_home, join_path(home_dir_spec(env), ".config"@)),
        "systemd/user"@,
    )
}

/// The whisper-cli binary: `$VTD_WHISPER_BIN`, or the build inside the data
/// directory.
pub open spec fn whisper_bin_spec(env: EnvVars) -> Seq<char> {
    or_default(
        env.whisper_bin,
        join_path(data_dir_spec(env), "whisper.cpp/build/bin/whisper-cli"@),
    )
}

/// The trigger key: `$VTD_TRIGGER_KEY` where it parses as a `u16`, else
/// KEY_RIGHTALT.
pub open spec fn trigger_key_spec(env: EnvVars) -> u16 {
    match env.trigger_key {
        Some(v) => match parse_u16_spec(v@) {
            Some(k) => k,
            None => KEY_RIGHTALT,
        },
        None => KEY_RIGHTALT,
    }
}

/// The settings that `Config::from_env` derives from the environment.
pub open spec fn config_spec(env: EnvVars) -> ConfigView {
    ConfigView {
        keyboard_device: opt_view(env.keyboard_device),
        mic_target: opt_view(env.mic_target),
        whisper_bin: whisper_bin_spec(env),
        whisper_model: or_default(
            env.whisper_model,
            join_path(models_dir_spec(env), "ggml-large-v3-turbo.bin"@),
        ),
        whisper_ld_library_path: opt_view(env.whisper_ld_library_path),
        trigger_key: trigger_key_spec(env),
    }
}

/// A `Config` seen as character sequences.
pub struct ConfigView {
    pub keyboard_device: Option<Seq<char>>,
    pub mic_target: Option<Seq<char>>,
    pub whisper_bin: Seq<char>,
    pub whisper_model: Seq<char>,
    pub whisper_ld_library_path: Option<Seq<char>>,
    pub trigger_key: u16,
}

impl View for Config {
    type V = ConfigView;

    open spec fn view(&self) -> ConfigView {
        ConfigView {
            keyboard_device: opt_view(self.keyboard_device),
            mic_target: opt_view(self.mic_target),
            whisper_bin: self.whisper_bin@,
            whisper_model: self.whisper_model@,
            whisper_ld_library_path: opt_view(self.whisper_ld_library_path),
            trigger_key: self.trigger_key,
        }
    }
}

/// A copy of an optional string.
pub fn clone_opt(o: &Option<String>) -> (r: Option<String>)
    ensures
        opt_view(r) == opt_view(*o),
{
    match o {
        Some(s) => Some(s.clone()),
        None => None,
    }
}

/// A copy of the string in `o`, or `default` where it is absent.
fn value_or(o: &Option<String>, default: String) -> (r: String)
    ensures
        r@ == or_default(*o, default@),
{
    match o {
        Some(s) => s.clone(),
        None => default,
    }
}

/// The value of an XDG base directory variable, or `default` where it is
/// unset or empty.
fn xdg_value_or(o: &Option<String>, default: String) -> (r: String)
    ensures
        r@ == xdg_or_default(*o, default@),
{
    match o {
        Some(s) => if s.as_str().unicode_len() > 0 {
            s.clone()
        } else {
            default
        },
        None => default,
    }
}

/// The home directory: `$HOME`, or `/`.
pub fn home_dir(env: &EnvVars) -> (r: String)
    ensures
        r@ == home_dir_spec(*env),
{
    value_or(&env.home, String::from_str("/"))
}

/// XDG data dir for vtd's own files (whisper.cpp checkout + build, models).
pub fn data_dir(env: &EnvVars) -> (r: String)
    ensures
        r@ == data_dir_spec(*env),
{
    let base = xdg_value_or(&env.xdg_data_home, join(home_dir(env).as_str(), ".local/share"));
    join(base.as_str(), "vtd")
}

/// The directory that holds downloaded models.
pub fn models_dir(env: &EnvVars) -> (r: String)
    ensures
        r@ == models_dir_spec(*env),
{
    join(data_dir(env).as_str(), "models")
}

/// The directory that holds systemd user units.
pub fn systemd_user_dir(env: &EnvVars) -> (r: String)
    ensures
        r@ == systemd_user_dir_spec(*env),
{
    let base = match &env.xdg_config_home {
        Some(d) => d.clone(),
        None => join(home_dir(env).as_str(), ".config"),
    };
    join(base.as_str(), "systemd/user")
}

/// The whisper-cli binary that the daemon runs and the installer checks for.
pub fn whisper_bin(env: &EnvVars) -> (r: String)
    ensures
        r@ == whisper_bin_spec(*env),
{
    match &env.whisper_bin {
        Some(b) => b.clone(),
        None => join(data_dir(env).as_str(), "whisper.cpp/build/bin/whisper-cli"),
    }
}

impl Config {
    /// The settings given by the environment, with the documented defaults for
    /// what is unset.
    pub fn from_env(env: &EnvVars) -> (r: Config)
        ensures
            r@ == config_spec(*env),
    {
        let whisper_model = match &env.whisper_model {
            Some(m) => m.clone(),
            None => join(models_dir(env).as_str(), "ggml-large-v3-turbo.bin"),
        };
        let trigger_key: u16 = match &env.trigger_key {
            Some(v) => match parse_u16(&chars_of(v.as_str())) {
                Some(k) => k,
                None => KEY_RIGHTALT,
            },
            None => KEY_RIGHTALT,
        };
        Config {
            keyboard_device: clone_opt(&env.keyboard_device),
            mic_target: clone_opt(&env.mic_target),
            whisper_bin: whisper_bin(env),
            whisper_model,
            whisper_ld_library_path: clone_opt(&env.whisper_ld_library_path),
            trigger_key,
        }
    }
}


/// A key code given in decimal in `$VTD_TRIGGER_KEY` is the trigger key.
pub proof fn lemma_trigger_key_decimal(env: EnvVars, k: u16)
    requires
        env.trigger_key is Some,
        env.trigger_key->0@ == decimal_string(k as nat),
    ensures
        trigger_key_spec(env) == k,
{
    lemma_parse_decimal_u16(k);
}

/// With only `$HOME` set (`$XDG_DATA_HOME` unset or empty), the daemon uses
/// the documented defaults: whisper-cli and the large-v3-turbo model under
/// `~/.local/share/vtd`, Right Alt as the trigger, an autodetected keyboard
/// and the default microphone; units go to `~/.config/systemd/user`.
pub proof fn lemma_documented_defaults(env: EnvVars)
    requires
        env.home is Some,
        env.home->0@.len() > 0,
        env.home->0@.last() != '/',
        env.xdg_data_home is None || env.xdg_data_home->0@.len() == 0,
        env.xdg_config_home is None,
        env.keyboard_device is None,
        env.mic_target is None,
        env.whisper_bin is None,
        env.whisper_model is None,
        env.whisper_ld_library_path is None,
        env.trigger_key is None,
    ensures
        config_spec(env).whisper_bin == env.home->0@
            + "/.local/share/vtd/whisper.cpp/build/bin/whisper-cli"@,
        config_spec(env).whisper_model == env.home->0@
            + "/.local/share/vtd/models/ggml-large-v3-turbo.bin"@,
        config_spec(env).trigger_key == KEY_RIGHTALT,
        config_spec(env).keyboard_device is None,
        config_spec(env).mic_target is None,
        config_spec(env).whisper_ld_library_path is None,
        systemd_user_dir_spec(env) == env.home->0@ + "/.config/systemd/user"@,
{
    let h = env.home->0@;
    reveal_strlit(".local/share");
    reveal_strlit("vtd");
    reveal_strlit("models");
    reveal_strlit("whisper.cpp/build/bin/whisper-cli");
    reveal_strlit("ggml-large-v3-turbo.bin");
    reveal_strlit(".config");
    reveal_strlit("systemd/user");
    reveal_strlit("/.local/share/vtd/whisper.cpp/build/bin/whisper-cli");
    reveal_strlit("/.local/share/vtd/models/ggml-large-v3-turbo.bin");
    reveal_strlit("/.config/systemd/user");
    let share = h + seq!['/'] + ".local/share"@;
    assert(join_path(h, ".local/share"@) == share);
    let data = share + seq!['/'] + "vtd"@;
    assert(share.last() == 'e');
    assert(join_path(share, "vtd"@) == data);
    assert(data_dir_spec(env) == data);
    assert(data.last() == 'd');
    assert(join_path(data, "whisper.cpp/build/bin/whisper-cli"@) =~= h
        + "/.local/share/vtd/whisper.cpp/build/bin/whisper-cli"@);
    let models = data + seq!['/'] + "models"@;
    assert(join_path(data, "models"@) == models);
    assert(models.last() == 's');
    assert(join_path(models, "ggml-large-v3-turbo.bin"@) =~= h
        + "/.local/share/vtd/models/ggml-large-v3-turbo.bin"@);
    let config = h + seq!['/'] + ".config"@;
    assert(join_path(h, ".config"@) == config);
    assert(config.last() == 'g');
    assert(join_path(config, "systemd/user"@) =~= h + "/.config/systemd/user"@);
}

/// A setting given in the environment is used as it is: the keyboard device,
/// microphone target, whisper-cli binary, model and library path.
pub proof fn lemma_settings_override(env: EnvVars)
    ensures
        env.keyboard_device matches Some(v) ==> config_spec(env).keyboard_device == Some(v@),
        env.mic_target matches Some(v) ==> config_spec(env).mic_target == Some(v@),
        env.whisper_bin matches Some(v) ==> config_spec(env).whisper_bin == v@,
        env.whisper_model matches Some(v) ==> config_spec(env).whisper_model == v@,
        env.whisper_ld_library_path matches Some(v) ==> config_spec(env).whisper_ld_library_path
            == Some(v@),
        env.keyboard_device is None ==> config_spec(env).keyboard_device is None,
        env.mic_target is None ==> config_spec(env).mic_target is None,
        env.whisper_ld_library_path is None ==> config_spec(env).whisper_ld_library_path is None,
{
}

} // verus!
