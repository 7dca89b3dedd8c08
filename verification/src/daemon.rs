use vstd::prelude::*;
use vstd::string::StrSliceExecFns;
use vstd::string::StringExecFns;
use vstd::utf8::{decode_utf8, valid_utf8};

use crate::config::{clone_opt, opt_view, Config, ConfigView};
use crate::number::{decimal_string, format_decimal};
use crate::path::{join, join_path};
use crate::text::{all_whitespace, is_whitespace, lemma_trim_shape, strings_view, trim, trim_str};

verus! {

/// The `type` of a key event in `struct input_event`.
pub const EV_KEY: u16 = 1;

/// The size of `struct input_event` on 64-bit Linux: two `i64`, two `u16` and
/// an `i32`.
pub const EVENT_SIZE: usize = 24;

/// How long after the last key pulse the key counts as released, in
/// nanoseconds (500 ms).
pub const RELEASE_DEBOUNCE_NANOS: u64 = 500_000_000;

/// Recordings shorter than this are discarded, in nanoseconds (300 ms).
pub const MIN_RECORDING_NANOS: u64 = 300_000_000;

/// What reaches the daemon's loop. Times are nanoseconds on one monotonic
/// clock.
pub enum Event {
    /// The trigger key was reported pressed or released.
    KeyPulse { now: u64 },
    /// The periodic wake-up.
    Tick { now: u64 },
    /// The recorder asked for by `Action::StartRecording` is running.
    RecordingStarted { now: u64 },
    /// The recorder could not be started.
    RecordingFailed,
}

/// What the daemon's loop is asked to do next.
pub enum Action {
    Nothing,
    /// Start the audio recorder and report back how it went.
    StartRecording,
    /// Stop the recorder and throw the recording away; it lasted `duration`.
    DiscardRecording { duration: u64 },
    /// Stop the recorder, transcribe the recording and type the text; it
    /// lasted `duration`.
    TranscribeRecording { duration: u64 },
}

/// The daemon's decision state: when the running recording started, whether
/// a recorder has been asked for and not yet reported, and when the last key
/// pulse came.
pub struct Daemon {
    pub recording_since: Option<u64>,
    pub starting: bool,
    pub last_pulse: Option<u64>,
}

/// Time passed from `then` to `now`, zero if `now` is earlier, as
/// `Instant::elapsed` measures it.
pub open spec fn elapsed(now: u64, then: u64) -> u64 {
    if now >= then {
        (now - then) as u64
    } else {
        0
    }
}

/// The daemon before any event.
pub open spec fn idle() -> Daemon {
    Daemon { recording_since: None, starting: false, last_pulse: None }
}

/// Whether a recorder is alive: asked for and not yet reported, or running.
pub open spec fn recorder_alive(s: Daemon) -> bool {
    s.starting || s.recording_since is Some
}

/// Whether a tick at `now` ends the recording: one is running and the last
/// pulse came more than the debounce interval ago.
pub open spec fn should_stop(s: Daemon, now: u64) -> bool {
    s.recording_since is Some && s.last_pulse is Some && elapsed(now, s.last_pulse->0)
        > RELEASE_DEBOUNCE_NANOS
}

/// The next state and the action for an event. A pulse records its time and
/// asks for a recorder unless one is alive; the report of a start asked for
/// makes it the running recording, the report of a failure forgets it; a
/// tick after the debounce interval stops the recording, discarding it when
/// it is shorter than the minimum, and forgets the last pulse. Reports that
/// nothing asked for change nothing.
pub open spec fn next(s: Daemon, e: Event) -> (Daemon, Action) {
    match e {
        Event::KeyPulse { now } => {
            if recorder_alive(s) {
                (Daemon { last_pulse: Some(now), ..s }, Action::Nothing)
            } else {
                (Daemon { last_pulse: Some(now), starting: true, ..s }, Action::StartRecording)
            }
        },
        Event::Tick { now } => {
            if should_stop(s, now) {
                let duration: u64 = elapsed(now, s.recording_since->0);
                if duration < MIN_RECORDING_NANOS {
                    (idle(), Action::DiscardRecording { duration })
                } else {
                    (idle(), Action::TranscribeRecording { duration })
                }
            } else {
                (s, Action::Nothing)
            }
        },
        Event::RecordingStarted { now } => if s.starting {
            (Daemon { recording_since: Some(now), starting: false, ..s }, Action::Nothing)
        } else {
            (s, Action::Nothing)
        },
        Event::RecordingFailed => (Daemon { starting: false, ..s }, Action::Nothing),
    }
}

/// A recorder asked for is not yet running, and a running or asked-for
/// recorder always has a key pulse behind it.
pub open spec fn wf(s: Daemon) -> bool {
    &&& !(s.starting && s.recording_since is Some)
    &&& recorder_alive(s) ==> s.last_pulse is Some
}

fn elapsed_exec(now: u64, then: u64) -> (r: u64)
    ensures
        r == elapsed(now, then),
{
    if now >= then {
        now - then
    } else {
        0
    }
}

impl Daemon {
    /// The daemon before any event.
    pub fn new() -> (d: Daemon)
        ensures
            d == idle(),
    {
        Daemon { recording_since: None, starting: false, last_pulse: None }
    }

    /// Whether a recording is running.
    pub fn is_recording(&self) -> (b: bool)
        ensures
            b == (self.recording_since is Some),
    {
        self.recording_since.is_some()
    }

    /// Takes in one event and says what to do.
    pub fn step(&mut self, e: Event) -> (a: Action)
        ensures
            (*final(self), a) == next(*old(self), e),
    {
        match e {
            Event::KeyPulse { now } => {
                self.last_pulse = Some(now);
                if self.starting || self.recording_since.is_some() {
                    Action::Nothing
                } else {
                    self.starting = true;
                    Action::StartRecording
                }
            },
            Event::Tick { now } => {
                let stop = match (self.recording_since, self.last_pulse) {
                    (Some(_), Some(lp)) => elapsed_exec(now, lp) > RELEASE_DEBOUNCE_NANOS,
                    _ => false,
                };
                if stop {
                    let started: u64 = match self.recording_since {
                        Some(t) => t,
                        None => 0,
                    };
                    let duration: u64 = elapsed_exec(now, started);
                    self.recording_since = None;
                    self.starting = false;
                    self.last_pulse = None;
                    if duration < MIN_RECORDING_NANOS {
                        Action::DiscardRecording { duration }
                    } else {
                        Action::TranscribeRecording { duration }
                    }
                } else {
                    Action::Nothing
                }
            },
            Event::RecordingStarted { now } => {
                if self.starting {
                    self.recording_since = Some(now);
                    self.starting = false;
                }
                Action::Nothing
            },
            Event::RecordingFailed => {
                self.starting = false;
                Action::Nothing
            },
        }
    }
}

/// The state after the events `es`, one after the other.
pub open spec fn run_events(s: Daemon, es: Seq<Event>) -> Daemon
    decreases es.len(),
{
    if es.len() == 0 {
        s
    } else {
        run_events(next(s, es[0]).0, es.drop_first())
    }
}

/// How the number of live recorders changes with an event: one more for each
/// start asked for, one fewer for each failure reported of a start asked for
/// and for each stop.
pub open spec fn recorder_change(s: Daemon, e: Event) -> int {
    match next(s, e).1 {
        Action::StartRecording => 1,
        Action::DiscardRecording { .. } => -1,
        Action::TranscribeRecording { .. } => -1,
        Action::Nothing => if e is RecordingFailed && s.starting {
            -1
        } else {
            0
        },
    }
}

/// The number of recorders the loop has started, less those it has seen fail
/// or stopped, over the events `es`.
pub open spec fn recorders_started(s: Daemon, es: Seq<Event>) -> int
    decreases es.len(),
{
    if es.len() == 0 {
        0
    } else {
        recorder_change(s, es[0]) + recorders_started(next(s, es[0]).0, es.drop_first())
    }
}

/// One as a count: whether a recorder is alive.
pub open spec fn alive_count(s: Daemon) -> int {
    if recorder_alive(s) {
        1
    } else {
        0
    }
}

/// `es` is what a held key produces: pulses, and ticks that each come no
/// later than the debounce interval after the latest pulse.
pub open spec fn key_held(s: Daemon, es: Seq<Event>) -> bool
    decreases es.len(),
{
    es.len() == 0 || ({
        &&& match es[0] {
            Event::KeyPulse { .. } => true,
            Event::Tick { now } => s.last_pulse is Some && elapsed(now, s.last_pulse->0)
                <= RELEASE_DEBOUNCE_NANOS,
            _ => false,
        }
        &&& key_held(next(s, es[0]).0, es.drop_first())
    })
}

/// Every event keeps the state well formed.
pub proof fn lemma_step_keeps_wf(s: Daemon, e: Event)
    requires
        wf(s),
    ensures
        wf(next(s, e).0),
{
}

/// In every state the loop reaches, a recorder asked for is not yet running,
/// and a live recorder has a key pulse behind it.
pub proof fn lemma_reachable_wf(s: Daemon, es: Seq<Event>)
    requires
        wf(s),
    ensures
        wf(run_events(s, es)),
    decreases es.len(),
{
    if es.len() > 0 {
        lemma_step_keeps_wf(s, es[0]);
        lemma_reachable_wf(next(s, es[0]).0, es.drop_first());
    }
}

/// The daemon starts idle, which is well formed.
pub proof fn lemma_idle_wf()
    ensures
        wf(idle()),
{
}

/// Each event changes the number of live recorders by what its action and
/// report say: a start is asked for only when none is alive, and a stop or a
/// failure ends the one that is.
pub proof fn lemma_recorder_change(s: Daemon, e: Event)
    requires
        wf(s),
    ensures
        alive_count(next(s, e).0) == alive_count(s) + recorder_change(s, e),
        next(s, e).1 is StartRecording ==> !recorder_alive(s),
{
}

/// At most one recorder runs: from any well-formed state, the recorders
/// started less those failed or stopped, counted over any events, match the
/// recorder alive at the end, so from the start there is never more than one.
pub proof fn lemma_at_most_one_recorder(s: Daemon, es: Seq<Event>)
    requires
        wf(s),
    ensures
        alive_count(s) + recorders_started(s, es) == alive_count(run_events(s, es)),
        0 <= alive_count(s) + recorders_started(s, es) <= 1,
    decreases es.len(),
{
    if es.len() > 0 {
        lemma_recorder_change(s, es[0]);
        lemma_step_keeps_wf(s, es[0]);
        lemma_at_most_one_recorder(next(s, es[0]).0, es.drop_first());
    }
}

/// A key pulse asks for a recorder exactly when none is alive, so a held key
/// never starts a second one; either way the pulse's time is kept and a
/// running recording goes on.
pub proof fn lemma_pulse_starts_once(s: Daemon, now: u64)
    ensures
        next(s, Event::KeyPulse { now }).1 == (if recorder_alive(s) {
            Action::Nothing
        } else {
            Action::StartRecording
        }),
        next(s, Event::KeyPulse { now }).0.last_pulse == Some(now),
        next(s, Event::KeyPulse { now }).0.recording_since == s.recording_since,
        recorder_alive(next(s, Event::KeyPulse { now }).0),
{
}

/// A tick that comes no later than the debounce interval after the last pulse
/// changes nothing and asks for nothing.
pub proof fn lemma_tick_within_debounce(s: Daemon, now: u64)
    requires
        s.last_pulse is Some,
        elapsed(now, s.last_pulse->0) <= RELEASE_DEBOUNCE_NANOS,
    ensures
        next(s, Event::Tick { now }) == (s, Action::Nothing),
{
}

/// Once no pulse has come for longer than the debounce interval, the next tick
/// stops the recording and the daemon is idle again; the recording is thrown
/// away when it lasted less than the minimum, and transcribed otherwise.
pub proof fn lemma_release_stops(s: Daemon, now: u64)
    requires
        s.recording_since is Some,
        s.last_pulse is Some,
        elapsed(now, s.last_pulse->0) > RELEASE_DEBOUNCE_NANOS,
    ensures
        next(s, Event::Tick { now }).0 == idle(),
        next(s, Event::Tick { now }).1 == (if elapsed(now, s.recording_since->0)
            < MIN_RECORDING_NANOS {
            Action::DiscardRecording { duration: elapsed(now, s.recording_since->0) }
        } else {
            Action::TranscribeRecording { duration: elapsed(now, s.recording_since->0) }
        }),
{
}

/// A tick never starts a recording, and without a recording it does nothing.
pub proof fn lemma_tick_never_starts(s: Daemon, now: u64)
    ensures
        next(s, Event::Tick { now }).1 != Action::StartRecording,
        s.recording_since is None ==> next(s, Event::Tick { now }) == (s, Action::Nothing),
{
}

/// While the key is held, a running recording is never stopped: after any
/// run of pulses and timely ticks it is still the same recording.
pub proof fn lemma_held_key_keeps_recording(s: Daemon, es: Seq<Event>)
    requires
        s.recording_since is Some,
        key_held(s, es),
    ensures
        run_events(s, es).recording_since == s.recording_since,
    decreases es.len(),
{
    if es.len() > 0 {
        lemma_held_key_keeps_recording(next(s, es[0]).0, es.drop_first());
    }
}

/// `r` is the bytes `b0, b1` and `b2, b3` read as two `u16` values, both in
/// the same byte order, one or the other.
pub open spec fn one_byte_order(r: (u16, u16), b0: u8, b1: u8, b2: u8, b3: u8) -> bool {
    ||| r.0 == b0 + 256 * b1 && r.1 == b2 + 256 * b3
    ||| r.0 == b1 + 256 * b0 && r.1 == b3 + 256 * b2
}

/// Calls `u16::from_ne_bytes` on `[b0, b1]` and on `[b2, b3]`; both read the
/// bytes in the machine's byte order. Which order that is depends on the
/// machine and is not stated; both values are read in the same one.
#[verifier::external_body]
fn u16_pair_from_ne_bytes(b0: u8, b1: u8, b2: u8, b3: u8) -> (r: (u16, u16))
    ensures
        one_byte_order(r, b0, b1, b2, b3),
{
    (u16::from_ne_bytes([b0, b1]), u16::from_ne_bytes([b2, b3]))
}

/// The `type` and `code` fields of a raw `struct input_event`, at bytes 16
/// and 18, in the machine's byte order.
pub fn key_event_fields(buf: &[u8]) -> (r: (u16, u16))
    requires
        buf@.len() == EVENT_SIZE,
    ensures
        one_byte_order(r, buf@[16], buf@[17], buf@[18], buf@[19]),
{
    u16_pair_from_ne_bytes(buf[16], buf[17], buf[18], buf[19])
}

/// Whether an input event is a report of the trigger key.
pub fn is_trigger_event(ev_type: u16, code: u16, trigger_key: u16) -> (b: bool)
    ensures
        b == (ev_type == EV_KEY && code == trigger_key),
{
    ev_type == EV_KEY && code == trigger_key
}

/// A program to run, its arguments, and the `LD_LIBRARY_PATH` to give it if
/// any.
pub struct CommandLine {
    pub program: String,
    pub args: Vec<String>,
    pub library_path: Option<String>,
}

/// A `CommandLine` seen as character sequences.
pub struct CommandView {
    pub program: Seq<char>,
    pub args: Seq<Seq<char>>,
    pub library_path: Option<Seq<char>>,
}

impl View for CommandLine {
    type V = CommandView;

    open spec fn view(&self) -> CommandView {
        CommandView {
            program: self.program@,
            args: strings_view(self.args@),
            library_path: opt_view(self.library_path),
        }
    }
}

/// Where the recording goes: `vtd-<pid>.wav` in the temporary directory.
pub open spec fn recording_path_spec(temp_dir: Seq<char>, pid: u32) -> Seq<char> {
    join_path(temp_dir, "vtd-"@ + decimal_string(pid as nat) + ".wav"@)
}

/// The recorder: 16 kHz mono `pw-record` into `path`, from `mic_target` if
/// one is set.
pub open spec fn recorder_spec(mic_target: Option<Seq<char>>, path: Seq<char>) -> CommandView {
    CommandView {
        program: "pw-record"@,
        args: seq!["--rate"@, "16000"@, "--channels"@, "1"@] + match mic_target {
            Some(t) => seq!["--target"@, t],
            None => seq![],
        } + seq![path],
        library_path: None,
    }
}

/// The transcriber: whisper-cli on the model and the recording, without
/// timestamps or progress output.
pub open spec fn transcriber_spec(cfg: ConfigView, wav: Seq<char>) -> CommandView {
    CommandView {
        program: cfg.whisper_bin,
        args: seq!["-m"@, cfg.whisper_model, "-f"@, wav, "-nt"@, "-np"@],
        library_path: cfg.whisper_ld_library_path,
    }
}

/// The typist: `ydotool type` with the text after `--`.
pub open spec fn typer_spec(text: Seq<char>) -> CommandView {
    CommandView { program: "ydotool"@, args: seq!["type"@, "--"@, text], library_path: None }
}

/// The text that is typed for a transcription: trimmed, and nothing when that
/// leaves nothing.
pub open spec fn typed_text(decoded: Seq<char>) -> Option<Seq<char>> {
    if trim(decoded).len() == 0 {
        None
    } else {
        Some(trim(decoded))
    }
}

/// What `String::from_utf8_lossy` gives for some bytes.
pub uninterp spec fn utf8_lossy(bytes: Seq<u8>) -> Seq<char>;

/// Calls `String::from_utf8_lossy`. Its result is claimed to be `utf8_lossy`
/// of the bytes, a function of the bytes alone, and for valid UTF-8 the text
/// the bytes encode. How invalid sequences become replacement characters is
/// not stated.
#[verifier::external_body]
fn decode_lossy(bytes: &[u8]) -> (r: String)
    ensures
        r@ == utf8_lossy(bytes@),
        valid_utf8(bytes@) ==> r@ == decode_utf8(bytes@),
{
    String::from_utf8_lossy(bytes).into_owned()
}

/// Where the recording for process `pid` goes.
pub fn recording_path(temp_dir: &str, pid: u32) -> (r: String)
    ensures
        r@ == recording_path_spec(temp_dir@, pid),
{
    let mut name = String::from_str("vtd-");
    name.append(format_decimal(pid).as_str());
    name.append(".wav");
    join(temp_dir, name.as_str())
}

fn owned(s: &str) -> (r: String)
    ensures
        r@ == s@,
{
    String::from_str(s)
}

/// The command that records from the microphone into `path`.
pub fn recorder_command(mic_target: &Option<String>, path: &str) -> (c: CommandLine)
    ensures
        c@ == recorder_spec(opt_view(*mic_target), path@),
{
    let mut args: Vec<String> = Vec::new();
    args.push(owned("--rate"));
    args.push(owned("16000"));
    args.push(owned("--channels"));
    args.push(owned("1"));
    match mic_target {
        Some(t) => {
            args.push(owned("--target"));
            args.push(t.clone());
        },
        None => {},
    }
    args.push(owned(path));
    let c = CommandLine { program: owned("pw-record"), args, library_path: None };
    assert(c@.args =~= recorder_spec(opt_view(*mic_target), path@).args);
    c
}

/// The command that transcribes the recording at `wav`.
pub fn transcriber_command(cfg: &Config, wav: &str) -> (c: CommandLine)
    ensures
        c@ == transcriber_spec(cfg@, wav@),
{
    let mut args: Vec<String> = Vec::new();
    args.push(owned("-m"));
    args.push(cfg.whisper_model.clone());
    args.push(owned("-f"));
    args.push(owned(wav));
    args.push(owned("-nt"));
    args.push(owned("-np"));
    let c = CommandLine {
        program: cfg.whisper_bin.clone(),
        args,
        library_path: clone_opt(&cfg.whisper_ld_library_path),
    };
    assert(c@.args =~= transcriber_spec(cfg@, wav@).args);
    c
}

/// The command that types `text` into the focused window.
pub fn typer_command(text: &str) -> (c: CommandLine)
    ensures
        c@ == typer_spec(text@),
{
    let mut args: Vec<String> = Vec::new();
    args.push(owned("type"));
    args.push(owned("--"));
    args.push(owned(text));
    let c = CommandLine { program: owned("ydotool"), args, library_path: None };
    assert(c@.args =~= typer_spec(text@).args);
    c
}

/// The text to type for a decoded transcription, if any.
pub fn text_to_type(decoded: &str) -> (r: Option<String>)
    ensures
        opt_view(r) == typed_text(decoded@),
{
    let t = trim_str(decoded);
    if t.as_str().unicode_len() == 0 {
        None
    } else {
        Some(t)
    }
}

/// The text to type for what the transcriber wrote to its output.
pub fn transcription_text(stdout: &[u8]) -> (r: Option<String>)
    ensures
        opt_view(r) == typed_text(utf8_lossy(stdout@)),
        valid_utf8(stdout@) ==> opt_view(r) == typed_text(decode_utf8(stdout@)),
{
    let decoded = decode_lossy(stdout);
    text_to_type(decoded.as_str())
}

/// The text typed for a transcription is all of it but the white space at its
/// ends: nothing is typed exactly when the transcription is all white space,
/// and otherwise the typed text is a contiguous piece of it, with only white
/// space before and after, that starts and ends with a character that is not
/// white space.
pub proof fn lemma_typed_text_is_whole_transcription(decoded: Seq<char>)
    ensures
        typed_text(decoded) is None <==> all_whitespace(decoded),
        typed_text(decoded) matches Some(t) ==> {
            &&& t.len() > 0
            &&& !is_whitespace(t[0])
            &&& !is_whitespace(t.last())
            &&& exists|i: int, j: int|
                0 <= i <= j <= decoded.len() && decoded.subrange(i, j) == t && all_whitespace(
                    decoded.take(i),
                ) && all_whitespace(decoded.skip(j))
        },
{
    lemma_trim_shape(decoded);
}

/// The commands carry their inputs verbatim where the programs read them: the
/// recorder writes 16 kHz mono to the given path, from the microphone target
/// when one is set; whisper-cli gets the configured binary, model and library
/// path and the recording; ydotool types the text as the argument after
/// `--`, so text that starts with `-` is typed, not read as an option.
pub proof fn lemma_commands_carry_inputs(
    mic_target: Option<Seq<char>>,
    path: Seq<char>,
    cfg: ConfigView,
    wav: Seq<char>,
    text: Seq<char>,
)
    ensures
        ({
            let r = recorder_spec(mic_target, path).args;
            &&& recorder_spec(mic_target, path).program == "pw-record"@
            &&& r.take(4) == seq!["--rate"@, "16000"@, "--channels"@, "1"@]
            &&& r.last() == path
            &&& mic_target matches Some(t) ==> r.len() == 7 && r[4] == "--target"@ && r[5] == t
            &&& mic_target is None ==> r.len() == 5
        }),
        transcriber_spec(cfg, wav).program == cfg.whisper_bin,
        transcriber_spec(cfg, wav).args.take(4) == seq!["-m"@, cfg.whisper_model, "-f"@, wav],
        transcriber_spec(cfg, wav).library_path == cfg.whisper_ld_library_path,
        typer_spec(text).program == "ydotool"@,
        typer_spec(text).args.len() == 3,
        typer_spec(text).args[1] == "--"@,
        typer_spec(text).args.last() == text,
{
    let r = recorder_spec(mic_target, path).args;
    assert(r.take(4) =~= seq!["--rate"@, "16000"@, "--channels"@, "1"@]);
    assert(transcriber_spec(cfg, wav).args.take(4) =~= seq!["-m"@, cfg.whisper_model, "-f"@, wav]);
}

} // verus!
