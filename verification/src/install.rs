use vstd::prelude::*;
use vstd::string::StringExecFns;

use crate::config::{EnvVars, models_dir, models_dir_spec};
use crate::daemon::CommandLine;
use crate::daemon::CommandView;
use crate::path::{join, join_path};
use crate::text::{chars_of, contains_seq, join_seqs, join_strings, same_chars, strings_view};

verus! {

/// The whisper.cpp ggml models that can be installed.
pub open spec fn known_models_spec() -> Seq<Seq<char>> {
    seq![
        "tiny"@,
        "tiny.en"@,
        "base"@,
        "base.en"@,
        "small"@,
        "small.en"@,
        "medium"@,
        "medium.en"@,
        "large-v1"@,
        "large-v2"@,
        "large-v3"@,
        "large-v3-turbo"@,
    ]
}

/// The model that is installed when none is named.
pub open spec fn default_model_spec() -> Seq<char> {
    "large-v3-turbo"@
}

/// The file a model is kept in: `ggml-<model>.bin`.
pub open spec fn model_file_spec(model: Seq<char>) -> Seq<char> {
    "ggml-"@ + model + ".bin"@
}

/// Where a model is installed, in the models directory.
pub open spec fn model_path_spec(env: EnvVars, model: Seq<char>) -> Seq<char> {
    join_path(models_dir_spec(env), model_file_spec(model))
}

/// Where a model is downloaded to before it is moved into place.
pub open spec fn partial_path_spec(env: EnvVars, model: Seq<char>) -> Seq<char> {
    join_path(models_dir_spec(env), model_file_spec(model) + ".part"@)
}

/// Where a model is downloaded from.
pub open spec fn model_url_spec(model: Seq<char>) -> Seq<char> {
    "https://huggingface.co/ggerganov/whisper.cpp/resolve/main/"@ + model_file_spec(model)
}

/// The download: `curl` following redirects, failing on HTTP errors, with a
/// progress bar, into `dest`.
pub open spec fn download_spec(dest: Seq<char>, url: Seq<char>) -> CommandView {
    CommandView {
        program: "curl"@,
        args: seq!["-L"@, "--fail"@, "--progress-bar"@, "-o"@, dest, url],
        library_path: None,
    }
}

/// An `Environment=` line of the unit for a variable that is set; nothing for
/// one that is unset.
pub open spec fn env_line(key: Seq<char>, value: Option<String>) -> Seq<char> {
    match value {
        Some(v) => "Environment="@ + key + "="@ + v@ + "\n"@,
        None => seq![],
    }
}

/// The unit's environment: the installed model, then each of the daemon's
/// variables that is set at install time, in a fixed order. A
/// `VTD_WHISPER_MODEL` set at install time comes after the installed model's
/// line, and systemd lets the later assignment win.
pub open spec fn env_lines_spec(model_path: Seq<char>, env: EnvVars) -> Seq<char> {
    "Environment=VTD_WHISPER_MODEL="@ + model_path + "\n"@ + env_line(
        "VTD_KEYBOARD_DEVICE"@,
        env.keyboard_device,
    ) + env_line("VTD_MIC_TARGET"@, env.mic_target) + env_line(
        "VTD_WHISPER_BIN"@,
        env.whisper_bin,
    ) + env_line("VTD_WHISPER_MODEL"@, env.whisper_model) + env_line("VTD_WHISPER_LD_LIBRARY_PATH"@, env.whisper_ld_library_path) + env_line(
        "VTD_TRIGGER_KEY"@,
        env.trigger_key,
    )
}

/// The systemd user unit that runs `exe` with the environment `env_lines`.
pub open spec fn unit_file_spec(exe: Seq<char>, env_lines: Seq<char>) -> Seq<char> {
    "[Unit]\nDescription=vtd push-to-talk voice dictation daemon\nAfter=graphical-session.target pipewire.service\n\n[Service]\nExecStart="@
        + exe + "\n"@ + env_lines
        + "Restart=on-failure\nRestartSec=2\n\n[Install]\nWantedBy=default.target\n"@
}

/// How the installed models are listed: their names joined by commas, or
/// `(none)`.
pub open spec fn models_summary_spec(names: Seq<Seq<char>>) -> Seq<char> {
    if names.len() == 0 {
        "(none)"@
    } else {
        join_seqs(names, ", "@)
    }
}

fn owned(s: &str) -> (r: String)
    ensures
        r@ == s@,
{
    String::from_str(s)
}

/// The models that can be installed.
pub fn known_models() -> (r: Vec<String>)
    ensures
        strings_view(r@) == known_models_spec(),
{
    let mut r: Vec<String> = Vec::new();
    r.push(owned("tiny"));
    r.push(owned("tiny.en"));
    r.push(owned("base"));
    r.push(owned("base.en"));
    r.push(owned("small"));
    r.push(owned("small.en"));
    r.push(owned("medium"));
    r.push(owned("medium.en"));
    r.push(owned("large-v1"));
    r.push(owned("large-v2"));
    r.push(owned("large-v3"));
    r.push(owned("large-v3-turbo"));
    assert(strings_view(r@) =~= known_models_spec());
    r
}

/// Whether `model` is one of the models that can be installed.
pub fn is_known_model(model: &str) -> (b: bool)
    ensures
        b == known_models_spec().contains(model@),
{
    let names = known_models();
    let m = chars_of(model);
    let mut i: usize = 0;
    while i < names.len()
        invariant
            i <= names@.len(),
            strings_view(names@) == known_models_spec(),
            m@ == model@,
            forall|k: int| 0 <= k < i ==> known_models_spec()[k] != model@,
        decreases names@.len() - i,
    {
        let n = chars_of(names[i].as_str());
        assert(known_models_spec()[i as int] == names@[i as int]@);
        if same_chars(&n, &m) {
            return true;
        }
        i = i + 1;
    }
    false
}

/// The known models joined by commas, for messages.
pub fn known_models_text() -> (r: String)
    ensures
        r@ == join_seqs(known_models_spec(), ", "@),
{
    join_strings(&known_models(), ", ")
}

/// The file a model is kept in.
pub fn model_file(model: &str) -> (r: String)
    ensures
        r@ == model_file_spec(model@),
{
    let mut r = owned("ggml-");
    r.append(model);
    r.append(".bin");
    r
}

/// Where a model is installed.
pub fn model_path(env: &EnvVars, model: &str) -> (r: String)
    ensures
        r@ == model_path_spec(*env, model@),
{
    join(models_dir(env).as_str(), model_file(model).as_str())
}

/// Where a model is downloaded to before it is moved into place.
pub fn partial_path(env: &EnvVars, model: &str) -> (r: String)
    ensures
        r@ == partial_path_spec(*env, model@),
{
    let mut f = model_file(model);
    f.append(".part");
    join(models_dir(env).as_str(), f.as_str())
}

/// Where a model is downloaded from.
pub fn model_url(model: &str) -> (r: String)
    ensures
        r@ == model_url_spec(model@),
{
    let mut r = owned("https://huggingface.co/ggerganov/whisper.cpp/resolve/main/");
    r.append(model_file(model).as_str());
    r
}

/// The command that downloads `url` into `dest`.
pub fn download_command(dest: &str, url: &str) -> (c: CommandLine)
    ensures
        c@ == download_spec(dest@, url@),
{
    let mut args: Vec<String> = Vec::new();
    args.push(owned("-L"));
    args.push(owned("--fail"));
    args.push(owned("--progress-bar"));
    args.push(owned("-o"));
    args.push(owned(dest));
    args.push(owned(url));
    let c = CommandLine { program: owned("curl"), args, library_path: None };
    assert(c@.args =~= download_spec(dest@, url@).args);
    c
}

fn push_env_line(lines: &mut String, key: &str, value: &Option<String>)
    ensures
        final(lines)@ == old(lines)@ + env_line(key@, *value),
{
    match value {
        Some(v) => {
            lines.append("Environment=");
            lines.append(key);
            lines.append("=");
            lines.append(v.as_str());
            lines.append("\n");
        },
        None => {
            assert(old(lines)@ + env_line(key@, *value) =~= old(lines)@);
        },
    }
}

/// The unit's `Environment=` lines for the model at `model_path`.
pub fn env_lines(model_path: &str, env: &EnvVars) -> (r: String)
    ensures
        r@ == env_lines_spec(model_path@, *env),
{
    let mut r = owned("Environment=VTD_WHISPER_MODEL=");
    r.append(model_path);
    r.append("\n");
    push_env_line(&mut r, "VTD_KEYBOARD_DEVICE", &env.keyboard_device);
    push_env_line(&mut r, "VTD_MIC_TARGET", &env.mic_target);
    push_env_line(&mut r, "VTD_WHISPER_BIN", &env.whisper_bin);
    push_env_line(&mut r, "VTD_WHISPER_MODEL", &env.whisper_model);
    push_env_line(&mut r, "VTD_WHISPER_LD_LIBRARY_PATH", &env.whisper_ld_library_path);
    push_env_line(&mut r, "VTD_TRIGGER_KEY", &env.trigger_key);
    r
}

/// The systemd user unit that runs `exe`.
pub fn unit_file(exe: &str, env_lines: &str) -> (r: String)
    ensures
        r@ == unit_file_spec(exe@, env_lines@),
{
    let mut r = owned(
        "[Unit]\nDescription=vtd push-to-talk voice dictation daemon\nAfter=graphical-session.target pipewire.service\n\n[Service]\nExecStart=",
    );
    r.append(exe);
    r.append("\n");
    r.append(env_lines);
    r.append("Restart=on-failure\nRestartSec=2\n\n[Install]\nWantedBy=default.target\n");
    r
}

/// How the installed models are listed.
pub fn models_summary(names: &Vec<String>) -> (r: String)
    ensures
        r@ == models_summary_spec(strings_view(names@)),
{
    if names.len() == 0 {
        owned("(none)")
    } else {
        join_strings(names, ", ")
    }
}

/// A piece of text occurs in any text that has it in the middle.
pub proof fn lemma_contains_middle(a: Seq<char>, x: Seq<char>, b: Seq<char>)
    ensures
        contains_seq(a + x + b, x),
{
    let w = a + x + b;
    assert(w.subrange(a.len() as int, a.len() + x.len() as int) =~= x);
}

/// The `Environment=` line that forwards `key` with the value `v`.
pub open spec fn forwarded(key: Seq<char>, v: Seq<char>) -> Seq<char> {
    "Environment="@ + key + "="@ + v + "\n"@
}

/// The unit's environment starts with the installed model, forwards every
/// daemon variable that is set at install time with its value, and is the
/// installed model's line alone when none is set.
pub proof fn lemma_env_lines_forward_settings(model_path: Seq<char>, env: EnvVars)
    ensures
        ({
            let t = env_lines_spec(model_path, env);
            &&& is_prefix_of_text(forwarded("VTD_WHISPER_MODEL"@, model_path), t)
            &&& env.keyboard_device matches Some(v) ==> contains_seq(
                t,
                forwarded("VTD_KEYBOARD_DEVICE"@, v@),
            )
            &&& env.mic_target matches Some(v) ==> contains_seq(
                t,
                forwarded("VTD_MIC_TARGET"@, v@),
            )
            &&& env.whisper_bin matches Some(v) ==> contains_seq(
                t,
                forwarded("VTD_WHISPER_BIN"@, v@),
            )
            &&& env.whisper_model matches Some(v) ==> contains_seq(
                t,
                forwarded("VTD_WHISPER_MODEL"@, v@),
            )
            &&& env.whisper_ld_library_path matches Some(v) ==> contains_seq(
                t,
                forwarded("VTD_WHISPER_LD_LIBRARY_PATH"@, v@),
            )
            &&& env.trigger_key matches Some(v) ==> contains_seq(
                t,
                forwarded("VTD_TRIGGER_KEY"@, v@),
            )
            &&& (env.keyboard_device is None && env.mic_target is None && env.whisper_bin is None
                && env.whisper_model is None && env.whisper_ld_library_path is None
                && env.trigger_key is None) ==> t == forwarded("VTD_WHISPER_MODEL"@, model_path)
        }),
{
    let p = forwarded("VTD_WHISPER_MODEL"@, model_path);
    let l1 = env_line("VTD_KEYBOARD_DEVICE"@, env.keyboard_device);
    let l2 = env_line("VTD_MIC_TARGET"@, env.mic_target);
    let l3 = env_line("VTD_WHISPER_BIN"@, env.whisper_bin);
    let l4 = env_line("VTD_WHISPER_MODEL"@, env.whisper_model);
    let l5 = env_line("VTD_WHISPER_LD_LIBRARY_PATH"@, env.whisper_ld_library_path);
    let l6 = env_line("VTD_TRIGGER_KEY"@, env.trigger_key);
    reveal_strlit("Environment=VTD_WHISPER_MODEL=");
    reveal_strlit("Environment=");
    reveal_strlit("VTD_WHISPER_MODEL");
    reveal_strlit("=");
    assert("Environment=VTD_WHISPER_MODEL="@ =~= "Environment="@ + "VTD_WHISPER_MODEL"@ + "="@);
    assert("Environment=VTD_WHISPER_MODEL="@ + model_path + "\n"@ =~= p);
    let t = env_lines_spec(model_path, env);
    assert(t == p + l1 + l2 + l3 + l4 + l5 + l6);
    lemma_contains_each(p, l1, l2, l3, l4, l5, l6);
}

/// Each of seven pieces of text occurs in them joined, and the first begins
/// it.
pub proof fn lemma_contains_each(
    p: Seq<char>,
    l1: Seq<char>,
    l2: Seq<char>,
    l3: Seq<char>,
    l4: Seq<char>,
    l5: Seq<char>,
    l6: Seq<char>,
)
    ensures
        ({
            let t = p + l1 + l2 + l3 + l4 + l5 + l6;
            &&& is_prefix_of_text(p, t)
            &&& contains_seq(t, l1)
            &&& contains_seq(t, l2)
            &&& contains_seq(t, l3)
            &&& contains_seq(t, l4)
            &&& contains_seq(t, l5)
            &&& contains_seq(t, l6)
        }),
{
    let t = p + l1 + l2 + l3 + l4 + l5 + l6;
    assert(t.take(p.len() as int) =~= p);
    assert(t =~= p + l1 + (l2 + l3 + l4 + l5 + l6));
    lemma_contains_middle(p, l1, l2 + l3 + l4 + l5 + l6);
    assert(t =~= (p + l1) + l2 + (l3 + l4 + l5 + l6));
    lemma_contains_middle(p + l1, l2, l3 + l4 + l5 + l6);
    assert(t =~= (p + l1 + l2) + l3 + (l4 + l5 + l6));
    lemma_contains_middle(p + l1 + l2, l3, l4 + l5 + l6);
    assert(t =~= (p + l1 + l2 + l3) + l4 + (l5 + l6));
    lemma_contains_middle(p + l1 + l2 + l3, l4, l5 + l6);
    assert(t =~= (p + l1 + l2 + l3 + l4) + l5 + l6);
    lemma_contains_middle(p + l1 + l2 + l3 + l4, l5, l6);
    assert(t =~= (p + l1 + l2 + l3 + l4 + l5) + l6 + Seq::<char>::empty());
    lemma_contains_middle(p + l1 + l2 + l3 + l4 + l5, l6, Seq::<char>::empty());
}

/// `p` begins the text `t`.
pub open spec fn is_prefix_of_text(p: Seq<char>, t: Seq<char>) -> bool {
    p.len() <= t.len() && t.take(p.len() as int) == p
}

/// The unit starts with its `[Unit]` section, runs the given executable with
/// the given environment lines right after it, and ends by asking to be
/// started with the user's default target.
pub proof fn lemma_unit_runs_exe(exe: Seq<char>, env_lines: Seq<char>)
    ensures
        is_prefix_of_text("[Unit]\n"@, unit_file_spec(exe, env_lines)),
        contains_seq(unit_file_spec(exe, env_lines), "ExecStart="@ + exe + "\n"@ + env_lines),
        unit_file_spec(exe, env_lines).skip(
            unit_file_spec(exe, env_lines).len() - "WantedBy=default.target\n"@.len(),
        ) == "WantedBy=default.target\n"@,
{
    let head = "[Unit]\nDescription=vtd push-to-talk voice dictation daemon\nAfter=graphical-session.target pipewire.service\n\n[Service]\nExecStart="@;
    let tail = "Restart=on-failure\nRestartSec=2\n\n[Install]\nWantedBy=default.target\n"@;
    reveal_strlit(
        "[Unit]\nDescription=vtd push-to-talk voice dictation daemon\nAfter=graphical-session.target pipewire.service\n\n[Service]\nExecStart=",
    );
    reveal_strlit("Restart=on-failure\nRestartSec=2\n\n[Install]\nWantedBy=default.target\n");
    reveal_strlit("[Unit]\n");
    reveal_strlit("ExecStart=");
    reveal_strlit("WantedBy=default.target\n");
    let t = unit_file_spec(exe, env_lines);
    let pre = head.take(head.len() - 10);
    assert(head =~= pre + "ExecStart="@);
    assert(t =~= pre + ("ExecStart="@ + exe + "\n"@ + env_lines) + tail);
    lemma_contains_middle(pre, "ExecStart="@ + exe + "\n"@ + env_lines, tail);
    assert(t.take(7) =~= "[Unit]\n"@);
    assert(t.skip(t.len() - 24) =~= tail.skip(tail.len() - 24));
    assert(tail.skip(tail.len() - 24) =~= "WantedBy=default.target\n"@);
}

} // verus!
