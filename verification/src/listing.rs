use vstd::prelude::*;

use crate::keyboard::{
    finish, initial_state, lines, newline_index, parse_devices_spec, run, step, strip_cr,
    ParseState,
};
use crate::text::is_prefix;

verus! {

/// Where the first line feed is: nothing before it is one, and it is one
/// where it lies inside the string.
pub proof fn lemma_newline_index(s: Seq<char>)
    ensures
        newline_index(s) <= s.len(),
        newline_index(s) < s.len() ==> s[newline_index(s) as int] == '\n',
        forall|k: int| 0 <= k < newline_index(s) ==> s[k] != '\n',
    decreases s.len(),
{
    if s.len() > 0 && s[0] != '\n' {
        lemma_newline_index(s.drop_first());
        assert forall|k: int| 0 <= k < newline_index(s) implies s[k] != '\n' by {
            if k > 0 {
                assert(s[k] == s.drop_first()[k - 1]);
            }
        }
    }
}

/// A string that ends with a line feed has its first line feed inside it.
pub proof fn lemma_newline_inside(s: Seq<char>)
    requires
        s.len() > 0,
        s.last() == '\n',
    ensures
        newline_index(s) < s.len(),
{
    lemma_newline_index(s);
    if newline_index(s) >= s.len() {
        assert(s[s.len() - 1] != '\n');
    }
}

/// The first line feed of `a + b` is that of `a`, or else that of `b`
/// shifted by the length of `a`.
pub proof fn lemma_newline_index_append(a: Seq<char>, b: Seq<char>)
    ensures
        newline_index(a + b) == if newline_index(a) < a.len() {
            newline_index(a)
        } else {
            a.len() + newline_index(b)
        },
    decreases a.len(),
{
    lemma_newline_index(a);
    if a.len() == 0 {
        assert(a + b =~= b);
    } else if a[0] != '\n' {
        assert((a + b).drop_first() =~= a.drop_first() + b);
        lemma_newline_index_append(a.drop_first(), b);
    }
}

/// A piece without line feeds, followed by one, is a single line.
pub proof fn lemma_lines_single(x: Seq<char>)
    requires
        forall|k: int| 0 <= k < x.len() ==> x[k] != '\n',
    ensures
        lines(x + seq!['\n']) == seq![strip_cr(x)],
{
    lemma_newline_index(x);
    lemma_newline_index_append(x, seq!['\n']);
    let s = x + seq!['\n'];
    assert(s.take(x.len() as int) =~= x);
    assert(s.skip(x.len() + 1 as int) =~= Seq::<char>::empty());
    assert(lines(Seq::<char>::empty()) == Seq::<Seq<char>>::empty());
    assert(seq![strip_cr(x)] + Seq::<Seq<char>>::empty() =~= seq![strip_cr(x)]);
}

/// Split after a line feed, a listing's lines are those of each part.
pub proof fn lemma_lines_append(a: Seq<char>, b: Seq<char>)
    requires
        a.len() == 0 || a.last() == '\n',
    ensures
        lines(a + b) == lines(a) + lines(b),
    decreases a.len(),
{
    if a.len() == 0 {
        assert(a + b =~= b);
        assert(lines(a) + lines(b) =~= lines(b));
    } else {
        lemma_newline_inside(a);
        lemma_newline_index_append(a, b);
        let n = newline_index(a) as int;
        let rest = a.skip(n + 1);
        assert((a + b).take(n) =~= a.take(n));
        assert((a + b).skip(n + 1) =~= rest + b);
        if rest.len() > 0 {
            assert(rest.last() == a.last());
        }
        lemma_lines_append(rest, b);
        assert(lines(a + b) == seq![strip_cr(a.take(n))] + lines(rest + b));
        assert(lines(a) == seq![strip_cr(a.take(n))] + lines(rest));
        assert(seq![strip_cr(a.take(n))] + (lines(rest) + lines(b)) =~= (seq![strip_cr(a.take(n))]
            + lines(rest)) + lines(b));
    }
}

/// A line end: a line feed, or a carriage return and a line feed.
pub open spec fn line_end(e: Seq<char>) -> bool {
    e == seq!['\n'] || e == seq!['\r', '\n']
}

/// Ending an unterminated last line with a line end changes no line, unless
/// that line ends with a carriage return.
pub proof fn lemma_lines_terminate(s: Seq<char>, e: Seq<char>)
    requires
        s.len() > 0,
        s.last() != '\n',
        s.last() != '\r',
        line_end(e),
    ensures
        lines(s + e) == lines(s),
    decreases s.len(),
{
    lemma_newline_index(s);
    lemma_newline_index_append(s, e);
    let t = s + e;
    let n = newline_index(s) as int;
    if n >= s.len() {
        if e.len() == 2 {
            assert(e.drop_first() =~= seq!['\n']);
            assert(newline_index(e.drop_first()) == 0);
        }
        assert(newline_index(e) == e.len() - 1);
        let m = s.len() + e.len() - 1;
        assert(strip_cr(t.take(m)) =~= s);
        assert(t.skip(m + 1) =~= Seq::<char>::empty());
        assert(lines(Seq::<char>::empty()) == Seq::<Seq<char>>::empty());
        assert(seq![s] + Seq::<Seq<char>>::empty() =~= seq![s]);
    } else {
        let rest = s.skip(n + 1);
        assert(n + 1 < s.len());
        assert(t.take(n) =~= s.take(n));
        assert(t.skip(n + 1) =~= rest + e);
        assert(rest.last() == s.last());
        lemma_lines_terminate(rest, e);
    }
}

/// Reading two runs of lines one after the other is reading them joined.
pub proof fn lemma_run_append(st: ParseState, l1: Seq<Seq<char>>, l2: Seq<Seq<char>>)
    ensures
        run(st, l1 + l2) == run(run(st, l1), l2),
    decreases l1.len(),
{
    if l1.len() == 0 {
        assert(l1 + l2 =~= l2);
    } else {
        assert((l1 + l2)[0] == l1[0]);
        assert((l1 + l2).drop_first() =~= l1.drop_first() + l2);
        lemma_run_append(step(st, l1[0]), l1.drop_first(), l2);
    }
}

/// A line put in front of others is read first.
pub proof fn lemma_run_cons(st: ParseState, l: Seq<char>, ls: Seq<Seq<char>>)
    ensures
        run(st, seq![l] + ls) == run(step(st, l), ls),
{
    assert((seq![l] + ls)[0] == l);
    assert((seq![l] + ls).drop_first() =~= ls);
}

/// A second blank line right after one changes nothing.
pub proof fn lemma_blank_twice(st: ParseState)
    ensures
        step(step(st, seq![]), seq![]) == step(st, seq![]),
{
}

/// A blank line at the end changes no device: it only closes the open block,
/// which ending the listing does anyway.
pub proof fn lemma_finish_blank(st: ParseState)
    ensures
        finish(step(st, seq![])) == finish(st),
{
}

/// The lines of a lone line end: one blank line.
pub proof fn lemma_lines_blank(e: Seq<char>)
    requires
        line_end(e),
    ensures
        lines(e) == seq![Seq::<char>::empty()],
{
    let x = e.drop_last();
    assert(x + seq!['\n'] =~= e);
    lemma_lines_single(x);
    assert(strip_cr(x) =~= Seq::<char>::empty());
}

/// The lines of a lone line feed: one blank line.
pub proof fn lemma_lines_newline()
    ensures
        lines(seq!['\n']) == seq![Seq::<char>::empty()],
{
    lemma_lines_blank(seq!['\n']);
}

/// `st` with its finished devices replaced by `d`.
pub open spec fn with_devices(st: ParseState, d: Seq<crate::keyboard::DeviceView>) -> ParseState {
    ParseState { devices: d, ..st }
}

/// The devices already finished are kept, in front of what the following
/// lines add; the rest of the state does not depend on them.
pub proof fn lemma_run_keeps_devices(st: ParseState, ls: Seq<Seq<char>>)
    ensures
        run(st, ls) == with_devices(
            run(with_devices(st, seq![]), ls),
            st.devices + run(with_devices(st, seq![]), ls).devices,
        ),
    decreases ls.len(),
{
    let st0 = with_devices(st, seq![]);
    if ls.len() == 0 {
        assert(st.devices + st0.devices =~= st.devices);
    } else {
        let s1 = step(st, ls[0]);
        let t1 = step(st0, ls[0]);
        assert(s1 == with_devices(t1, st.devices + t1.devices)) by {
            if ls[0].len() == 0 && st.name.len() > 0 {
                assert(st.devices + t1.devices =~= st.devices.push(
                    crate::keyboard::current_device(st),
                ));
            } else {
                assert(st.devices + t1.devices =~= st.devices);
            }
        }
        lemma_run_keeps_devices(s1, ls.drop_first());
        lemma_run_keeps_devices(t1, ls.drop_first());
        let r = run(with_devices(t1, seq![]), ls.drop_first());
        assert(with_devices(s1, seq![]) == with_devices(t1, seq![]));
        assert(st.devices + (t1.devices + r.devices) =~= (st.devices + t1.devices) + r.devices);
    }
}

/// Ending the listing keeps the finished devices in front, too.
pub proof fn lemma_finish_keeps_devices(st: ParseState)
    ensures
        finish(st) == st.devices + finish(with_devices(st, seq![])),
{
    let c = crate::keyboard::current_device(st);
    if st.name.len() > 0 {
        assert(st.devices.push(c) =~= st.devices + Seq::<crate::keyboard::DeviceView>::empty().push(
            c,
        ));
    } else {
        assert(st.devices =~= st.devices + Seq::<crate::keyboard::DeviceView>::empty());
    }
}

/// A line that the reader ignores, once its line end is removed: non-empty,
/// and neither a `N: Name=` nor a `H: Handlers=` line.
pub open spec fn ignored_line(x: Seq<char>) -> bool {
    &&& forall|k: int| 0 <= k < x.len() ==> x[k] != '\n'
    &&& strip_cr(x).len() > 0
    &&& !is_prefix("N: Name="@, strip_cr(x))
    &&& !is_prefix("H: Handlers="@, strip_cr(x))
}

/// Inserting a line that is neither a name nor a handlers line (such as
/// `I: Bus=...`, `P: Phys=...` or `B: EV=...`) at a line start changes no
/// device.
pub proof fn lemma_ignored_line(a: Seq<char>, x: Seq<char>, b: Seq<char>)
    requires
        a.len() == 0 || a.last() == '\n',
        ignored_line(x),
    ensures
        parse_devices_spec(a + x + seq!['\n'] + b) == parse_devices_spec(a + b),
{
    let xn = x + seq!['\n'];
    assert(a + x + seq!['\n'] + b =~= a + (xn + b));
    lemma_lines_append(a, xn + b);
    lemma_lines_append(xn, b);
    lemma_lines_single(x);
    lemma_lines_append(a, b);
    let s = run(initial_state(), lines(a));
    lemma_run_append(initial_state(), lines(a), lines(xn + b));
    lemma_run_append(initial_state(), lines(a), lines(b));
    lemma_run_cons(s, strip_cr(x), lines(b));
    assert(step(s, strip_cr(x)) == s);
}

/// A blank line may be doubled, with either line end, without changing any
/// device.
pub proof fn lemma_blank_line_doubled(a: Seq<char>, e1: Seq<char>, e2: Seq<char>, b: Seq<char>)
    requires
        a.len() == 0 || a.last() == '\n',
        line_end(e1),
        line_end(e2),
    ensures
        parse_devices_spec(a + e1 + b) == parse_devices_spec(a + e1 + e2 + b),
{
    let blank = Seq::<char>::empty();
    assert(a + e1 + b =~= a + (e1 + b));
    assert(a + e1 + e2 + b =~= a + (e1 + (e2 + b)));
    lemma_lines_blank(e1);
    lemma_lines_blank(e2);
    lemma_lines_append(a, e1 + b);
    lemma_lines_append(e1, b);
    lemma_lines_append(a, e1 + (e2 + b));
    lemma_lines_append(e1, e2 + b);
    lemma_lines_append(e2, b);
    let s = run(initial_state(), lines(a));
    lemma_run_append(initial_state(), lines(a), lines(e1 + b));
    lemma_run_append(initial_state(), lines(a), lines(e1 + (e2 + b)));
    lemma_run_cons(s, blank, lines(b));
    lemma_run_cons(s, blank, seq![blank] + lines(b));
    lemma_run_cons(step(s, blank), blank, lines(b));
    lemma_blank_twice(s);
}

/// A blank line at the start, with either line end, changes no device.
pub proof fn lemma_leading_blank_line(e: Seq<char>, s: Seq<char>)
    requires
        line_end(e),
    ensures
        parse_devices_spec(e + s) == parse_devices_spec(s),
{
    lemma_lines_blank(e);
    lemma_lines_append(e, s);
    lemma_run_cons(initial_state(), Seq::<char>::empty(), lines(s));
    assert(step(initial_state(), Seq::<char>::empty()) == initial_state());
}

/// Two line ends after the listing (ending its last line and adding a blank
/// one, or adding two blank lines) change no device, unless its last line is
/// unterminated and ends with a carriage return (which the added line end
/// would then remove).
pub proof fn lemma_trailing_blank_lines(s: Seq<char>, e1: Seq<char>, e2: Seq<char>)
    requires
        s.len() == 0 || s.last() != '\r',
        line_end(e1),
        line_end(e2),
    ensures
        parse_devices_spec(s + e1 + e2) == parse_devices_spec(s),
{
    let blank = Seq::<char>::empty();
    lemma_lines_blank(e1);
    lemma_lines_blank(e2);
    let t = s + e1;
    lemma_lines_append(t, e2);
    if s.len() == 0 || s.last() == '\n' {
        lemma_lines_append(s, e1);
    } else {
        lemma_lines_terminate(s, e1);
    }
    let st = run(initial_state(), lines(s));
    if s.len() == 0 || s.last() == '\n' {
        assert(lines(t + e2) == lines(s) + seq![blank] + seq![blank]);
        assert(lines(s) + seq![blank] + seq![blank] =~= lines(s) + (seq![blank] + seq![blank]));
        lemma_run_append(initial_state(), lines(s), seq![blank] + seq![blank]);
        lemma_run_cons(st, blank, seq![blank]);
        lemma_run_cons(step(st, blank), blank, Seq::<Seq<char>>::empty());
        lemma_blank_twice(st);
    } else {
        assert(lines(t + e2) == lines(s) + seq![blank]);
        lemma_run_append(initial_state(), lines(s), seq![blank]);
        lemma_run_cons(st, blank, Seq::<Seq<char>>::empty());
    }
    lemma_finish_blank(st);
}

/// The listing `a` ends with a blank line and leaves no event node pending:
/// its last nameless block, if any, named no event node.
pub open spec fn ends_cleanly(a: Seq<char>) -> bool {
    &&& a.len() >= 2
    &&& a[a.len() - 1] == '\n'
    &&& a[a.len() - 2] == '\n'
    &&& run(initial_state(), lines(a)).event_path is None
}

/// Two listings joined, the first ending cleanly with a blank line, describe
/// the devices of the first followed by those of the second.
pub proof fn lemma_listings_concatenate(a: Seq<char>, b: Seq<char>)
    requires
        a.len() == 0 || ends_cleanly(a),
    ensures
        parse_devices_spec(a + b) == parse_devices_spec(a) + parse_devices_spec(b),
{
    if a.len() == 0 {
        assert(a + b =~= b);
        assert(lines(a) == Seq::<Seq<char>>::empty());
        assert(parse_devices_spec(a) == Seq::<crate::keyboard::DeviceView>::empty());
        assert(parse_devices_spec(a) + parse_devices_spec(b) =~= parse_devices_spec(b));
    } else {
        let a1 = a.drop_last();
        let nl = seq!['\n'];
        assert(a1 + nl =~= a);
        lemma_lines_newline();
        lemma_lines_append(a1, nl);
        lemma_run_append(initial_state(), lines(a1), seq![Seq::<char>::empty()]);
        lemma_run_cons(
            run(initial_state(), lines(a1)),
            Seq::<char>::empty(),
            Seq::<Seq<char>>::empty(),
        );
        let s = run(initial_state(), lines(a));
        assert(s.name.len() == 0 && !s.has_kbd && s.event_path is None);
        assert(with_devices(s, seq![]) == initial_state());
        lemma_lines_append(a, b);
        lemma_run_append(initial_state(), lines(a), lines(b));
        lemma_run_keeps_devices(s, lines(b));
        let r = run(initial_state(), lines(b));
        lemma_finish_keeps_devices(run(s, lines(b)));
        assert(with_devices(run(s, lines(b)), seq![]) == with_devices(r, seq![]));
        lemma_finish_keeps_devices(r);
        assert(finish(s) == s.devices);
        assert(s.devices + (r.devices + finish(with_devices(r, seq![]))) =~= (s.devices
            + r.devices) + finish(with_devices(r, seq![])));
    }
}

/// The text of the lines `xs`, each followed by a line feed.
pub open spec fn line_text(xs: Seq<Seq<char>>) -> Seq<char>
    decreases xs.len(),
{
    if xs.len() == 0 {
        seq![]
    } else {
        xs[0] + seq!['\n'] + line_text(xs.drop_first())
    }
}

/// Inserting any number of ignored lines at a line start changes no device.
pub proof fn lemma_ignored_lines(a: Seq<char>, xs: Seq<Seq<char>>, b: Seq<char>)
    requires
        a.len() == 0 || a.last() == '\n',
        forall|i: int| 0 <= i < xs.len() ==> ignored_line(#[trigger] xs[i]),
    ensures
        parse_devices_spec(a + line_text(xs) + b) == parse_devices_spec(a + b),
    decreases xs.len(),
{
    if xs.len() == 0 {
        assert(a + line_text(xs) + b =~= a + b);
    } else {
        let rest = xs.drop_first();
        assert forall|i: int| 0 <= i < rest.len() implies ignored_line(#[trigger] rest[i]) by {
            assert(rest[i] == xs[i + 1]);
        }
        assert(ignored_line(xs[0]));
        assert(a + line_text(xs) + b =~= a + xs[0] + seq!['\n'] + (line_text(rest) + b));
        lemma_ignored_line(a, xs[0], line_text(rest) + b);
        assert(a + (line_text(rest) + b) =~= a + line_text(rest) + b);
        lemma_ignored_lines(a, rest, b);
    }
}

/// An ignored line without a line end, added as the last line after a line
/// end, changes no device.
pub proof fn lemma_ignored_last_line(a: Seq<char>, x: Seq<char>)
    requires
        a.len() == 0 || a.last() == '\n',
        ignored_line(x),
        x.last() != '\r',
    ensures
        parse_devices_spec(a + x) == parse_devices_spec(a),
{
    lemma_newline_index(x);
    lemma_lines_append(a, x);
    assert(lines(x) == seq![x]);
    assert(strip_cr(x) == x);
    let s = run(initial_state(), lines(a));
    lemma_run_append(initial_state(), lines(a), seq![x]);
    lemma_run_cons(s, x, Seq::<Seq<char>>::empty());
    assert(step(s, x) == s);
}

/// Ignored lines put after an unterminated last line, each on a line of its
/// own, change no device, unless that last line ends with a carriage return.
pub proof fn lemma_ignored_lines_after(s: Seq<char>, xs: Seq<Seq<char>>)
    requires
        s.len() > 0,
        s.last() != '\n',
        s.last() != '\r',
        forall|i: int| 0 <= i < xs.len() ==> ignored_line(#[trigger] xs[i]),
    ensures
        parse_devices_spec(s + seq!['\n'] + line_text(xs)) == parse_devices_spec(s),
{
    let t = s + seq!['\n'];
    lemma_lines_terminate(s, seq!['\n']);
    lemma_ignored_lines(t, xs, Seq::<char>::empty());
    assert(t + line_text(xs) + Seq::<char>::empty() =~= t + line_text(xs));
    assert(t + Seq::<char>::empty() =~= t);
}

/// A handlers line: one the reader takes as `H: Handlers=`.
pub open spec fn handlers_line(l: Seq<char>) -> bool {
    !is_prefix("N: Name="@, l) && is_prefix("H: Handlers="@, l)
}

/// From the state `st`, with `seen` telling whether the open block has had a
/// handlers line, every block among the lines `ls` that has a handlers line
/// has a non-empty name when a blank line closes it.
pub open spec fn named_when_closed(st: ParseState, ls: Seq<Seq<char>>, seen: bool) -> bool
    decreases ls.len(),
{
    ls.len() == 0 || ({
        let l = ls[0];
        let seen2 = if l.len() == 0 {
            false
        } else if handlers_line(l) {
            true
        } else {
            seen
        };
        &&& (l.len() == 0 && seen ==> st.name.len() > 0)
        &&& named_when_closed(step(st, l), ls.drop_first(), seen2)
    })
}

/// Every block of the listing `a` that has a handlers line is named when a
/// blank line closes it.
pub open spec fn handler_blocks_named(a: Seq<char>) -> bool {
    named_when_closed(initial_state(), lines(a), false)
}

/// Where every block with a handlers line is named when it closes, no event
/// node is pending after a closing blank line.
pub proof fn lemma_named_blocks_leave_no_event(st: ParseState, ls: Seq<Seq<char>>, seen: bool)
    requires
        named_when_closed(st, ls, seen),
        st.event_path is Some ==> seen,
        ls.len() > 0,
        ls.last().len() == 0,
    ensures
        run(st, ls).event_path is None,
    decreases ls.len(),
{
    let l = ls[0];
    let st2 = step(st, l);
    let seen2 = if l.len() == 0 {
        false
    } else if handlers_line(l) {
        true
    } else {
        seen
    };
    assert(l.len() == 0 && seen ==> st.name.len() > 0);
    assert(st2.event_path is Some ==> seen2);
    assert(named_when_closed(st2, ls.drop_first(), seen2));
    assert(run(st, ls) == run(st2, ls.drop_first()));
    if ls.len() > 1 {
        assert(ls.drop_first().last() == ls.last());
        lemma_named_blocks_leave_no_event(st2, ls.drop_first(), seen2);
    } else {
        assert(ls.drop_first().len() == 0);
        assert(l == ls.last());
        assert(l.len() == 0);
        assert(run(st2, ls.drop_first()) == st2);
        assert(st2.event_path is None);
    }
}

/// Two listings joined, the first ending with a blank line and having every
/// block with a handlers line named, describe the devices of the first
/// followed by those of the second.
pub proof fn lemma_named_listings_concatenate(a: Seq<char>, b: Seq<char>)
    requires
        a.len() == 0 || (a.len() >= 2 && a[a.len() - 1] == '\n' && a[a.len() - 2] == '\n'
            && handler_blocks_named(a)),
    ensures
        parse_devices_spec(a + b) == parse_devices_spec(a) + parse_devices_spec(b),
{
    if a.len() > 0 {
        let a1 = a.drop_last();
        assert(a1 + seq!['\n'] =~= a);
        lemma_lines_newline();
        lemma_lines_append(a1, seq!['\n']);
        assert(lines(a).last() == Seq::<char>::empty());
        lemma_named_blocks_leave_no_event(initial_state(), lines(a), false);
    }
    lemma_listings_concatenate(a, b);
}

} // verus!
