use vstd::prelude::*;
use vstd::string::StrSliceExecFns;

use crate::config::{clone_opt, opt_view};
use crate::path::{join, join_path};
use crate::text::{
    chars_of, contains_chars, contains_seq, has_prefix_at, is_prefix, string_from_chars, strings_view,
};
use crate::words::{first_with_prefix, scan_words, words};

verus! {

/// An input device as listed in /proc/bus/input/devices.
pub struct Device {
    pub name: String,
    pub event_path: Option<String>,
    pub has_kbd_handler: bool,
}

/// A `Device` seen as character sequences.
pub struct DeviceView {
    pub name: Seq<char>,
    pub event_path: Option<Seq<char>>,
    pub has_kbd_handler: bool,
}

impl View for Device {
    type V = DeviceView;

    open spec fn view(&self) -> DeviceView {
        DeviceView {
            name: self.name@,
            event_path: opt_view(self.event_path),
            has_kbd_handler: self.has_kbd_handler,
        }
    }
}

/// The devices of a list, seen as character sequences.
pub open spec fn devices_view(ds: Seq<Device>) -> Seq<DeviceView> {
    ds.map_values(|d: Device| d@)
}

/// The index of the first line feed in `s`, or its length where there is none.
pub open spec fn newline_index(s: Seq<char>) -> nat
    decreases s.len(),
{
    if s.len() == 0 || s[0] == '\n' {
        0
    } else {
        1 + newline_index(s.drop_first())
    }
}

/// A line that ended in a line feed loses a carriage return before it.
pub open spec fn strip_cr(l: Seq<char>) -> Seq<char> {
    if l.len() > 0 && l.last() == '\r' {
        l.drop_last()
    } else {
        l
    }
}

/// The lines of `s`, as `str::lines` yields them: split after each line feed,
/// with the line feed and a carriage return before it removed; a final line
/// without a line feed is kept as it is, and an empty remainder yields no
/// line.
pub open spec fn lines(s: Seq<char>) -> Seq<Seq<char>>
    decreases s.len(),
{
    if s.len() == 0 {
        seq![]
    } else if newline_index(s) >= s.len() {
        seq![s]
    } else {
        seq![strip_cr(s.take(newline_index(s) as int))] + lines(
            s.skip(newline_index(s) + 1 as int),
        )
    }
}

/// `s` without leading double quotes.
pub open spec fn strip_quotes_start(s: Seq<char>) -> Seq<char>
    decreases s.len(),
{
    if s.len() > 0 && s[0] == '"' {
        strip_quotes_start(s.drop_first())
    } else {
        s
    }
}

/// `s` without trailing double quotes.
pub open spec fn strip_quotes_end(s: Seq<char>) -> Seq<char>
    decreases s.len(),
{
    if s.len() > 0 && s.last() == '"' {
        strip_quotes_end(s.drop_last())
    } else {
        s
    }
}

/// `s` with double quotes removed from both ends, as `trim_matches('"')` does.
pub open spec fn trim_quotes(s: Seq<char>) -> Seq<char> {
    strip_quotes_end(strip_quotes_start(s))
}

/// What has been gathered part way through the device listing: the devices
/// finished so far, and the fields of the block being read.
pub struct ParseState {
    pub devices: Seq<DeviceView>,
    pub name: Seq<char>,
    pub event_path: Option<Seq<char>>,
    pub has_kbd: bool,
}

/// The state before the first line.
pub open spec fn initial_state() -> ParseState {
    ParseState { devices: seq![], name: seq![], event_path: None, has_kbd: false }
}

/// The device that the current block describes.
pub open spec fn current_device(st: ParseState) -> DeviceView {
    DeviceView { name: st.name, event_path: st.event_path, has_kbd_handler: st.has_kbd }
}

/// The event node that a `H: Handlers=` line names: the first handler that
/// starts with `event`, under /dev/input.
pub open spec fn event_node(handlers: Seq<char>) -> Option<Seq<char>> {
    match first_with_prefix(words(handlers), "event"@) {
        Some(h) => Some(join_path("/dev/input"@, h)),
        None => None,
    }
}

/// How one line changes the state. A blank line closes a block: a block with
/// a name becomes a device and hands over its event node; the kbd flag is
/// reset either way. `N: Name=` sets the name without surrounding quotes;
/// `H: Handlers=` sets the kbd flag and the event node; other lines change
/// nothing.
pub open spec fn step(st: ParseState, line: Seq<char>) -> ParseState {
    if line.len() == 0 {
        if st.name.len() > 0 {
            ParseState {
                devices: st.devices.push(current_device(st)),
                name: seq![],
                event_path: None,
                has_kbd: false,
            }
        } else {
            ParseState { name: seq![], has_kbd: false, ..st }
        }
    } else if is_prefix("N: Name="@, line) {
        ParseState { name: trim_quotes(line.skip("N: Name="@.len() as int)), ..st }
    } else if is_prefix("H: Handlers="@, line) {
        let rest = line.skip("H: Handlers="@.len() as int);
        ParseState { has_kbd: words(rest).contains("kbd"@), event_path: event_node(rest), ..st }
    } else {
        st
    }
}

/// The state after the lines `ls`, one after the other.
pub open spec fn run(st: ParseState, ls: Seq<Seq<char>>) -> ParseState
    decreases ls.len(),
{
    if ls.len() == 0 {
        st
    } else {
        run(step(st, ls[0]), ls.drop_first())
    }
}

/// The devices once the input has ended: a named block still open is one more.
pub open spec fn finish(st: ParseState) -> Seq<DeviceView> {
    if st.name.len() > 0 {
        st.devices.push(current_device(st))
    } else {
        st.devices
    }
}

/// The devices that a /proc/bus/input/devices listing describes.
pub open spec fn parse_devices_spec(contents: Seq<char>) -> Seq<DeviceView> {
    finish(run(initial_state(), lines(contents)))
}

/// The bounds of `s[lo..hi]` once double quotes are trimmed from both ends.
fn trim_quote_bounds(s: &Vec<char>, lo: usize, hi: usize) -> (r: (usize, usize))
    requires
        lo <= hi <= s@.len(),
    ensures
        lo <= r.0 <= r.1 <= hi,
        s@.subrange(r.0 as int, r.1 as int) == trim_quotes(s@.subrange(lo as int, hi as int)),
{
    let mut a: usize = lo;
    while a < hi && s[a] == '"'
        invariant
            lo <= a <= hi <= s@.len(),
            strip_quotes_start(s@.subrange(lo as int, hi as int)) == strip_quotes_start(
                s@.subrange(a as int, hi as int),
            ),
        decreases hi - a,
    {
        assert(s@.subrange(a as int, hi as int).drop_first() =~= s@.subrange(a + 1, hi as int));
        a = a + 1;
    }
    let mut b: usize = hi;
    while b > a && s[b - 1] == '"'
        invariant
            lo <= a <= b <= hi <= s@.len(),
            trim_quotes(s@.subrange(lo as int, hi as int)) == strip_quotes_end(
                s@.subrange(a as int, b as int),
            ),
        decreases b - a,
    {
        assert(s@.subrange(a as int, b as int).drop_last() =~= s@.subrange(a as int, b - 1));
        b = b - 1;
    }
    (a, b)
}


/// The characters `lo..hi` of `s`, as a vector of their own.
fn slice_chars(s: &Vec<char>, lo: usize, hi: usize) -> (v: Vec<char>)
    requires
        lo <= hi <= s@.len(),
    ensures
        v@ == s@.subrange(lo as int, hi as int),
{
    let mut v: Vec<char> = Vec::new();
    let mut i: usize = lo;
    while i < hi
        invariant
            lo <= i <= hi <= s@.len(),
            v@ == s@.subrange(lo as int, i as int),
        decreases hi - i,
    {
        v.push(s[i]);
        assert(v@ =~= s@.subrange(lo as int, i + 1));
        i = i + 1;
    }
    v
}

/// The reader of a device listing, one line at a time.
struct LineParser {
    devices: Vec<Device>,
    name: String,
    event_path: Option<String>,
    has_kbd: bool,
}

impl View for LineParser {
    type V = ParseState;

    closed spec fn view(&self) -> ParseState {
        ParseState {
            devices: devices_view(self.devices@),
            name: self.name@,
            event_path: opt_view(self.event_path),
            has_kbd: self.has_kbd,
        }
    }
}

impl LineParser {
    fn new() -> (p: LineParser)
        ensures
            p@ == initial_state(),
    {
        let p = LineParser {
            devices: Vec::new(),
            name: String::new(),
            event_path: None,
            has_kbd: false,
        };
        assert(devices_view(p.devices@) =~= seq![]);
        p
    }

    /// Takes in the line `cs[a..b]` of the listing.
    fn feed_line(&mut self, cs: &Vec<char>, a: usize, b: usize)
        requires
            a <= b <= cs@.len(),
        ensures
            final(self)@ == step(old(self)@, cs@.subrange(a as int, b as int)),
    {
        let ghost line = cs@.subrange(a as int, b as int);
        if a == b {
            if self.name.as_str().unicode_len() > 0 {
                let d = Device {
                    name: self.name.clone(),
                    event_path: self.event_path.take(),
                    has_kbd_handler: self.has_kbd,
                };
                let ghost old_devices = self.devices@;
                self.devices.push(d);
                assert(devices_view(self.devices@) =~= devices_view(old_devices).push(d@));
            }
            self.name = String::new();
            self.has_kbd = false;
            return ;
        }
        let name_key = chars_of("N: Name=");
        if has_prefix_at(cs, a, b, &name_key) {
            let (x, y): (usize, usize) = trim_quote_bounds(cs, a + name_key.len(), b);
            assert(line.skip(name_key@.len() as int) =~= cs@.subrange(
                a + name_key@.len(),
                b as int,
            ));
            self.name = string_from_chars(&slice_chars(cs, x, y));
            return ;
        }
        let handlers_key = chars_of("H: Handlers=");
        if has_prefix_at(cs, a, b, &handlers_key) {
            let off: usize = a + handlers_key.len();
            let rest = slice_chars(cs, off, b);
            assert(line.skip(handlers_key@.len() as int) =~= rest@);
            let kbd = chars_of("kbd");
            let event = chars_of("event");
            let (has_kbd, first): (bool, Option<(usize, usize)>) = scan_words(&rest, &kbd, &event);
            self.has_kbd = has_kbd;
            self.event_path = match first {
                Some((x, y)) => {
                    assert(rest@.subrange(x as int, y as int) =~= cs@.subrange(off + x, off + y));
                    let h = string_from_chars(&slice_chars(cs, off + x, off + y));
                    Some(join("/dev/input", h.as_str()))
                },
                None => None,
            };
        }
    }

    /// The devices once the listing has ended.
    fn finish(self) -> (r: Vec<Device>)
        ensures
            devices_view(r@) == finish(self@),
    {
        let mut devices = self.devices;
        if self.name.as_str().unicode_len() > 0 {
            let ghost old_devices = devices@;
            let d = Device {
                name: self.name,
                event_path: self.event_path,
                has_kbd_handler: self.has_kbd,
            };
            devices.push(d);
            assert(devices_view(devices@) =~= devices_view(old_devices).push(d@));
        }
        devices
    }
}

/// The devices described by the contents of /proc/bus/input/devices: blocks of
/// lines separated by blank lines, each with a `N: Name=` and a
/// `H: Handlers=` line.
pub fn parse_devices(contents: &str) -> (r: Vec<Device>)
    ensures
        devices_view(r@) == parse_devices_spec(contents@),
{
    let cs = chars_of(contents);
    let mut p = LineParser::new();
    let mut pos: usize = 0;
    assert(cs@.skip(0) =~= cs@);
    while pos < cs.len()
        invariant
            pos <= cs@.len(),
            cs@ == contents@,
            run(initial_state(), lines(cs@)) == run(p@, lines(cs@.skip(pos as int))),
        decreases cs@.len() - pos,
    {
        let ghost rest = cs@.skip(pos as int);
        let mut j: usize = pos;
        while j < cs.len() && cs[j] != '\n'
            invariant
                pos <= j <= cs@.len(),
                rest == cs@.skip(pos as int),
                newline_index(rest) == (j - pos) + newline_index(cs@.skip(j as int)),
            decreases cs@.len() - j,
        {
            assert(cs@.skip(j as int).drop_first() =~= cs@.skip(j + 1));
            j = j + 1;
        }
        let ghost before = p@;
        if j == cs.len() {
            assert(rest =~= cs@.subrange(pos as int, j as int));
            p.feed_line(&cs, pos, j);
            assert(lines(rest) == seq![rest]);
            assert(seq![rest].drop_first() =~= Seq::<Seq<char>>::empty());
            assert(cs@.skip(j as int) =~= Seq::<char>::empty());
            pos = j;
        } else {
            assert(newline_index(rest) == j - pos);
            let mut e: usize = j;
            if e > pos && cs[e - 1] == '\r' {
                e = e - 1;
            }
            assert(strip_cr(rest.take(j - pos)) =~= cs@.subrange(pos as int, e as int));
            p.feed_line(&cs, pos, e);
            assert(rest.skip(j - pos + 1) =~= cs@.skip(j + 1));
            let ghost ls = lines(rest);
            assert(ls == seq![cs@.subrange(pos as int, e as int)] + lines(cs@.skip(j + 1)));
            assert(ls.drop_first() =~= lines(cs@.skip(j + 1)));
            pos = j + 1;
        }
    }
    assert(cs@.skip(pos as int) =~= Seq::<char>::empty());
    p.finish()
}


/// What `str::to_lowercase` gives for a string: its Unicode lowercase mapping.
pub uninterp spec fn lowercase(s: Seq<char>) -> Seq<char>;

/// Calls `str::to_lowercase`. Its result is claimed to be `lowercase` of the
/// argument, a function of the argument alone: the mapping does not depend
/// on a locale. What the mapping is, is not stated.
#[verifier::external_body]
fn to_lowercase(s: &str) -> (r: String)
    ensures
        r@ == lowercase(s@),
{
    s.to_lowercase()
}

/// A lowercased device name that marks a pseudo-device which has a kbd
/// handler but is no keyboard (lid switch, hotkey chords, and the like).
pub open spec fn names_non_keyboard(lower: Seq<char>) -> bool {
    ||| contains_seq(lower, "video bus"@)
    ||| contains_seq(lower, "sleep button"@)
    ||| contains_seq(lower, "power button"@)
    ||| contains_seq(lower, "lid switch"@)
    ||| contains_seq(lower, "wireless hotkeys"@)
    ||| contains_seq(lower, "gpio-keys"@)
    ||| contains_seq(lower, "wmi hotkeys"@)
    ||| contains_seq(lower, "output events"@)
    ||| contains_seq(lower, "consumer control"@)
}

/// Whether the lowercased name `lower` marks a pseudo-device.
fn is_non_keyboard_name(lower: &Vec<char>) -> (b: bool)
    ensures
        b == names_non_keyboard(lower@),
{
    contains_chars(lower, &chars_of("video bus")) || contains_chars(lower, &chars_of("sleep button"))
        || contains_chars(lower, &chars_of("power button")) || contains_chars(
        lower,
        &chars_of("lid switch"),
    ) || contains_chars(lower, &chars_of("wireless hotkeys")) || contains_chars(
        lower,
        &chars_of("gpio-keys"),
    ) || contains_chars(lower, &chars_of("wmi hotkeys")) || contains_chars(
        lower,
        &chars_of("output events"),
    ) || contains_chars(lower, &chars_of("consumer control"))
}

/// A device that may be the keyboard: it has a kbd handler and an event node,
/// and its lowercased name `lower` marks no pseudo-device.
pub open spec fn is_candidate(d: DeviceView, lower: Seq<char>) -> bool {
    d.has_kbd_handler && d.event_path is Some && !names_non_keyboard(lower)
}

/// The first index from `i` on of a candidate, or with `named_keyboard` of a
/// candidate whose lowercased name contains "keyboard".
pub open spec fn first_candidate_from(
    devs: Seq<DeviceView>,
    lows: Seq<Seq<char>>,
    i: int,
    named_keyboard: bool,
) -> Option<int>
    decreases devs.len() - i,
{
    if i < 0 || i >= devs.len() {
        None
    } else if is_candidate(devs[i], lows[i]) && (!named_keyboard || contains_seq(
        lows[i],
        "keyboard"@,
    )) {
        Some(i)
    } else {
        first_candidate_from(devs, lows, i + 1, named_keyboard)
    }
}

/// The event node of the chosen keyboard: the first candidate whose name
/// contains "keyboard", else the first candidate; none without candidates.
/// `lows` holds the lowercased names of `devs`.
pub open spec fn pick_spec(devs: Seq<DeviceView>, lows: Seq<Seq<char>>) -> Option<Seq<char>> {
    match first_candidate_from(devs, lows, 0, true) {
        Some(i) => devs[i].event_path,
        None => match first_candidate_from(devs, lows, 0, false) {
            Some(i) => devs[i].event_path,
            None => None,
        },
    }
}

/// The event node of the keyboard among `devices`, given the lowercased
/// device names in `lowered`.
pub fn pick_keyboard(devices: &Vec<Device>, lowered: &Vec<String>) -> (r: Option<String>)
    requires
        lowered@.len() == devices@.len(),
    ensures
        opt_view(r) == pick_spec(devices_view(devices@), strings_view(lowered@)),
{
    let ghost devs = devices_view(devices@);
    let ghost lows = strings_view(lowered@);
    let mut first_any: Option<usize> = None;
    let mut i: usize = 0;
    while i < devices.len()
        invariant
            i <= devices@.len() == lowered@.len(),
            devs == devices_view(devices@),
            lows == strings_view(lowered@),
            first_candidate_from(devs, lows, 0, true) == first_candidate_from(
                devs,
                lows,
                i as int,
                true,
            ),
            match first_any {
                Some(k) => k < devices@.len() && first_candidate_from(devs, lows, 0, false) == Some(
                    k as int,
                ),
                None => first_candidate_from(devs, lows, 0, false) == first_candidate_from(
                    devs,
                    lows,
                    i as int,
                    false,
                ),
            },
        decreases devices@.len() - i,
    {
        let d = &devices[i];
        let lower = chars_of(lowered[i].as_str());
        assert(devs[i as int] == d@);
        assert(lows[i as int] == lower@);
        let candidate = d.has_kbd_handler && d.event_path.is_some() && !is_non_keyboard_name(
            &lower,
        );
        if candidate && contains_chars(&lower, &chars_of("keyboard")) {
            return clone_opt(&d.event_path);
        }
        if candidate && first_any.is_none() {
            first_any = Some(i);
        }
        i = i + 1;
    }
    match first_any {
        Some(k) => {
            assert(devs[k as int] == devices@[k as int]@);
            clone_opt(&devices[k].event_path)
        },
        None => None,
    }
}

/// The keyboard that a device listing yields.
pub open spec fn autodetect_spec(contents: Seq<char>) -> Option<Seq<char>> {
    pick_spec(
        parse_devices_spec(contents),
        parse_devices_spec(contents).map_values(|d: DeviceView| lowercase(d.name)),
    )
}

/// The keyboard's event node, chosen from the contents of
/// /proc/bus/input/devices: the first device with a kbd handler and an event
/// node that is no known pseudo-device, preferring one whose name contains
/// "keyboard".
pub fn autodetect(contents: &str) -> (r: Option<String>)
    ensures
        opt_view(r) == autodetect_spec(contents@),
{
    let devices = parse_devices(contents);
    let mut lowered: Vec<String> = Vec::new();
    let mut i: usize = 0;
    while i < devices.len()
        invariant
            i <= devices@.len(),
            lowered@.len() == i,
            forall|k: int|
                0 <= k < i ==> (#[trigger] lowered@[k])@ == lowercase(devices@[k].name@),
        decreases devices@.len() - i,
    {
        lowered.push(to_lowercase(devices[i].name.as_str()));
        i = i + 1;
    }
    assert(strings_view(lowered@) =~= devices_view(devices@).map_values(
        |d: DeviceView| lowercase(d.name),
    ));
    pick_keyboard(&devices, &lowered)
}


/// An event node path, where there is one, lies under /dev/input/event.
pub open spec fn event_node_ok(p: Option<Seq<char>>) -> bool {
    p is Some ==> is_prefix("/dev/input/event"@, p->0)
}

/// A name that neither starts nor ends with a double quote.
pub open spec fn unquoted(n: Seq<char>) -> bool {
    n.len() > 0 ==> n[0] != '"' && n.last() != '"'
}

/// A device as the listing yields it: named, the name without surrounding
/// quotes, and its event node, if any, under /dev/input/event.
pub open spec fn device_ok(d: DeviceView) -> bool {
    d.name.len() > 0 && unquoted(d.name) && event_node_ok(d.event_path)
}

/// Every device gathered so far, and the block being read, have the shape
/// that the listing gives.
pub open spec fn state_ok(st: ParseState) -> bool {
    &&& forall|i: int| 0 <= i < st.devices.len() ==> device_ok(#[trigger] st.devices[i])
    &&& event_node_ok(st.event_path)
    &&& unquoted(st.name)
}

/// Removing leading quotes leaves a string that does not start with one.
pub proof fn lemma_strip_quotes_start(s: Seq<char>)
    ensures
        strip_quotes_start(s).len() > 0 ==> strip_quotes_start(s)[0] != '"',
    decreases s.len(),
{
    if s.len() > 0 && s[0] == '"' {
        lemma_strip_quotes_start(s.drop_first());
    }
}

/// Removing trailing quotes leaves a prefix that does not end with one.
pub proof fn lemma_strip_quotes_end(s: Seq<char>)
    ensures
        strip_quotes_end(s).len() <= s.len(),
        strip_quotes_end(s) == s.take(strip_quotes_end(s).len() as int),
        strip_quotes_end(s).len() > 0 ==> strip_quotes_end(s).last() != '"',
    decreases s.len(),
{
    if s.len() > 0 && s.last() == '"' {
        lemma_strip_quotes_end(s.drop_last());
        let r = strip_quotes_end(s.drop_last());
        assert(s.drop_last().take(r.len() as int) =~= s.take(r.len() as int));
    } else {
        assert(s.take(s.len() as int) =~= s);
    }
}

/// A name with its quotes trimmed neither starts nor ends with one.
pub proof fn lemma_trim_quotes(s: Seq<char>)
    ensures
        unquoted(trim_quotes(s)),
{
    let t = strip_quotes_start(s);
    lemma_strip_quotes_start(s);
    lemma_strip_quotes_end(t);
    let r = strip_quotes_end(t);
    if r.len() > 0 {
        assert(r[0] == t.take(r.len() as int)[0]);
    }
}

/// The first word found with a prefix has that prefix.
pub proof fn lemma_first_with_prefix(ws: Seq<Seq<char>>, p: Seq<char>)
    ensures
        first_with_prefix(ws, p) is Some ==> is_prefix(p, first_with_prefix(ws, p)->0),
    decreases ws.len(),
{
    if ws.len() > 0 && !is_prefix(p, ws[0]) {
        lemma_first_with_prefix(ws.drop_first(), p);
    }
}

/// The event node named by a handlers list lies under /dev/input/event.
pub proof fn lemma_event_node_ok(handlers: Seq<char>)
    ensures
        event_node_ok(event_node(handlers)),
{
    lemma_first_with_prefix(words(handlers), "event"@);
    reveal_strlit("event");
    reveal_strlit("/dev/input");
    reveal_strlit("/dev/input/event");
    if let Some(w) = first_with_prefix(words(handlers), "event"@) {
        assert(w.take(5) == "event"@);
        assert(w.take(5)[0] == w[0]);
        assert(w[0] == 'e');
        let p = "/dev/input"@ + seq!['/'] + w;
        assert(join_path("/dev/input"@, w) == p);
        assert forall|i: int| 11 <= i < 16 implies p[i] == "/dev/input/event"@[i] by {
            assert(p[i] == w[i - 11]);
            assert(w[i - 11] == w.take(5)[i - 11]);
        }
        assert(p.take(16) =~= "/dev/input/event"@);
    }
}

/// Each line keeps the shape of what has been gathered.
pub proof fn lemma_step_ok(st: ParseState, line: Seq<char>)
    requires
        state_ok(st),
    ensures
        state_ok(step(st, line)),
{
    let r = step(st, line);
    if line.len() == 0 {
        if st.name.len() > 0 {
            assert forall|i: int| 0 <= i < r.devices.len() implies device_ok(
                #[trigger] r.devices[i],
            ) by {
                if i < st.devices.len() {
                    assert(r.devices[i] == st.devices[i]);
                }
            }
        }
    } else if is_prefix("N: Name="@, line) {
        lemma_trim_quotes(line.skip("N: Name="@.len() as int));
    } else if is_prefix("H: Handlers="@, line) {
        lemma_event_node_ok(line.skip("H: Handlers="@.len() as int));
    }
}

/// Any run of lines keeps the shape of what has been gathered.
pub proof fn lemma_run_ok(st: ParseState, ls: Seq<Seq<char>>)
    requires
        state_ok(st),
    ensures
        state_ok(run(st, ls)),
    decreases ls.len(),
{
    if ls.len() > 0 {
        lemma_step_ok(st, ls[0]);
        lemma_run_ok(step(st, ls[0]), ls.drop_first());
    }
}

/// Every device read from a listing has a name, which neither starts nor
/// ends with a double quote, and every event node it names lies under
/// /dev/input/event.
pub proof fn lemma_parsed_devices_ok(contents: Seq<char>)
    ensures
        forall|i: int|
            0 <= i < parse_devices_spec(contents).len() ==> device_ok(
                #[trigger] parse_devices_spec(contents)[i],
            ),
{
    assert(state_ok(initial_state()));
    lemma_run_ok(initial_state(), lines(contents));
    let st = run(initial_state(), lines(contents));
    let r = parse_devices_spec(contents);
    assert forall|i: int| 0 <= i < r.len() implies device_ok(#[trigger] r[i]) by {
        if i < st.devices.len() {
            assert(r[i] == st.devices[i]);
        }
    }
}

/// Device `j` is a candidate, and with `named_keyboard` one whose lowercased
/// name contains "keyboard".
pub open spec fn qualifies(
    devs: Seq<DeviceView>,
    lows: Seq<Seq<char>>,
    j: int,
    named_keyboard: bool,
) -> bool {
    is_candidate(devs[j], lows[j]) && (named_keyboard ==> contains_seq(lows[j], "keyboard"@))
}

/// The search from `i` finds the first qualifying device at or after `i`,
/// and finds none only where none qualifies.
pub proof fn lemma_first_candidate_from(
    devs: Seq<DeviceView>,
    lows: Seq<Seq<char>>,
    i: int,
    named_keyboard: bool,
)
    requires
        0 <= i,
    ensures
        match first_candidate_from(devs, lows, i, named_keyboard) {
            Some(k) => i <= k < devs.len() && qualifies(devs, lows, k, named_keyboard) && forall|
                j: int,
            | i <= j < k ==> !#[trigger] qualifies(devs, lows, j, named_keyboard),
            None => forall|j: int|
                i <= j < devs.len() ==> !#[trigger] qualifies(devs, lows, j, named_keyboard),
        },
    decreases devs.len() - i,
{
    if i < devs.len() && !qualifies(devs, lows, i, named_keyboard) {
        lemma_first_candidate_from(devs, lows, i + 1, named_keyboard);
    }
}

/// The keyboard chosen is a candidate's event node; one is chosen whenever
/// there is a candidate; and where some candidate's name contains
/// "keyboard", the chosen one's does too.
pub proof fn lemma_pick_keyboard(devs: Seq<DeviceView>, lows: Seq<Seq<char>>)
    requires
        lows.len() == devs.len(),
    ensures
        pick_spec(devs, lows) is Some <==> exists|i: int|
            0 <= i < devs.len() && #[trigger] qualifies(devs, lows, i, false),
        pick_spec(devs, lows) is Some ==> exists|i: int|
            0 <= i < devs.len() && #[trigger] qualifies(devs, lows, i, false)
                && devs[i].event_path == pick_spec(devs, lows),
        (exists|i: int| 0 <= i < devs.len() && #[trigger] qualifies(devs, lows, i, true))
            ==> exists|i: int|
            0 <= i < devs.len() && #[trigger] qualifies(devs, lows, i, true)
                && devs[i].event_path == pick_spec(devs, lows),
{
    lemma_first_candidate_from(devs, lows, 0, true);
    lemma_first_candidate_from(devs, lows, 0, false);
    match first_candidate_from(devs, lows, 0, true) {
        Some(k) => {
            assert(qualifies(devs, lows, k, false));
        },
        None => {
            if let Some(k) = first_candidate_from(devs, lows, 0, false) {
                assert(qualifies(devs, lows, k, false));
            }
        },
    }
}


/// The detected keyboard, where there is one, is the event node of a device
/// in the listing that has a kbd handler and is no known pseudo-device, and
/// it lies under /dev/input/event.
pub proof fn lemma_autodetect_event_node(contents: Seq<char>)
    ensures
        ({
            let devs = parse_devices_spec(contents);
            let lows = devs.map_values(|d: DeviceView| lowercase(d.name));
            let r = pick_spec(devs, lows);
            r is Some ==> is_prefix("/dev/input/event"@, r->0) && exists|i: int|
                0 <= i < devs.len() && #[trigger] qualifies(devs, lows, i, false)
                    && devs[i].event_path == r
        }),
{
    let devs = parse_devices_spec(contents);
    let lows = devs.map_values(|d: DeviceView| lowercase(d.name));
    lemma_pick_keyboard(devs, lows);
    lemma_parsed_devices_ok(contents);
    let r = pick_spec(devs, lows);
    if r is Some {
        let i: int = choose|i: int|
            0 <= i < devs.len() && #[trigger] qualifies(devs, lows, i, false)
                && devs[i].event_path == r;
        assert(device_ok(devs[i]));
    }
}


/// The keyboard device to read: the configured one, else the one detected in
/// the device listing, where it could be read.
pub open spec fn keyboard_device_spec(
    configured: Option<Seq<char>>,
    listing: Option<Seq<char>>,
) -> Option<Seq<char>> {
    match configured {
        Some(d) => Some(d),
        None => match listing {
            Some(l) => autodetect_spec(l),
            None => None,
        },
    }
}

/// The keyboard device to read, given `$VTD_KEYBOARD_DEVICE` and the device
/// listing; the daemon cannot run where this is `None`.
pub fn keyboard_device(configured: &Option<String>, listing: &Option<String>) -> (r: Option<
    String,
>)
    ensures
        opt_view(r) == keyboard_device_spec(opt_view(*configured), opt_view(*listing)),
{
    match configured {
        Some(d) => Some(d.clone()),
        None => match listing {
            Some(l) => autodetect(l.as_str()),
            None => None,
        },
    }
}

/// A configured keyboard device is used as it is, whatever the device
/// listing says or whether it could be read; only without one is the
/// listing consulted, and without both there is no device.
pub proof fn lemma_configured_device_wins(
    d: Seq<char>,
    listing: Option<Seq<char>>,
    contents: Seq<char>,
)
    ensures
        keyboard_device_spec(Some(d), listing) == Some(d),
        keyboard_device_spec(None, Some(contents)) == pick_spec(
            parse_devices_spec(contents),
            parse_devices_spec(contents).map_values(|dv: DeviceView| lowercase(dv.name)),
        ),
        keyboard_device_spec(None, None) is None,
{
}

/// A lowercased name that mentions one of the known pseudo-devices: a video
/// bus, a sleep or power button, a lid switch, wireless or WMI hotkeys,
/// gpio keys, output events or a consumer control.
pub open spec fn mentions_pseudo_device(lower: Seq<char>) -> bool {
    contains_seq(lower, "video bus"@) || contains_seq(lower, "sleep button"@) || contains_seq(
        lower,
        "power button"@,
    ) || contains_seq(lower, "lid switch"@) || contains_seq(lower, "wireless hotkeys"@)
        || contains_seq(lower, "gpio-keys"@) || contains_seq(lower, "wmi hotkeys"@)
        || contains_seq(lower, "output events"@) || contains_seq(lower, "consumer control"@)
}

/// No device whose lowercased name mentions a known pseudo-device is ever a
/// candidate, so none is ever chosen as the keyboard: the chosen event node
/// belongs to a device with a kbd handler whose name mentions none of them.
pub proof fn lemma_pseudo_devices_never_chosen(devs: Seq<DeviceView>, lows: Seq<Seq<char>>)
    requires
        lows.len() == devs.len(),
    ensures
        forall|d: DeviceView, lower: Seq<char>|
            mentions_pseudo_device(lower) ==> !#[trigger] is_candidate(d, lower),
        pick_spec(devs, lows) is Some ==> exists|i: int|
            0 <= i < devs.len() && devs[i].has_kbd_handler && devs[i].event_path == pick_spec(
                devs,
                lows,
            ) && !mentions_pseudo_device(#[trigger] lows[i]),
{
    lemma_pick_keyboard(devs, lows);
    if pick_spec(devs, lows) is Some {
        let i: int = choose|i: int|
            0 <= i < devs.len() && #[trigger] qualifies(devs, lows, i, false)
                && devs[i].event_path == pick_spec(devs, lows);
        assert(is_candidate(devs[i], lows[i]));
        assert(!mentions_pseudo_device(lows[i]));
    }
}

/// Autodetection never picks a device whose lowercased name mentions a known
/// pseudo-device.
pub proof fn lemma_autodetect_skips_pseudo_devices(contents: Seq<char>)
    ensures
        ({
            let devs = parse_devices_spec(contents);
            let lows = devs.map_values(|d: DeviceView| lowercase(d.name));
            autodetect_spec(contents) is Some ==> exists|i: int|
                0 <= i < devs.len() && devs[i].has_kbd_handler && devs[i].event_path
                    == autodetect_spec(contents) && !mentions_pseudo_device(lowercase(devs[i].name))
        }),
{
    let devs = parse_devices_spec(contents);
    let lows = devs.map_values(|d: DeviceView| lowercase(d.name));
    lemma_pseudo_devices_never_chosen(devs, lows);
    if autodetect_spec(contents) is Some {
        let i: int = choose|i: int|
            0 <= i < devs.len() && devs[i].has_kbd_handler && devs[i].event_path == pick_spec(
                devs,
                lows,
            ) && !mentions_pseudo_device(#[trigger] lows[i]);
        assert(lows[i] == lowercase(devs[i].name));
    }
}

} // verus!
