use vstd::prelude::*;

use crate::text::{char_is_whitespace, has_prefix_at, is_prefix, is_whitespace};

verus! {

/// The index at which the run of non-white-space characters starting at `i`
/// ends.
pub open spec fn word_end(s: Seq<char>, i: int) -> int
    decreases s.len() - i,
{
    if i < 0 || i >= s.len() || is_whitespace(s[i]) {
        i
    } else {
        word_end(s, i + 1)
    }
}

/// A word ends no earlier than it starts and within the string, and every
/// character before its end is not white space.
pub proof fn lemma_word_end(s: Seq<char>, i: int)
    requires
        0 <= i <= s.len(),
    ensures
        i <= word_end(s, i) <= s.len(),
        forall|k: int| i <= k < word_end(s, i) ==> !is_whitespace(#[trigger] s[k]),
        i < s.len() && !is_whitespace(s[i]) ==> i < word_end(s, i),
    decreases s.len() - i,
{
    if i < s.len() && !is_whitespace(s[i]) {
        lemma_word_end(s, i + 1);
    }
}

/// The white-space-separated words of `s` from index `i` on, as
/// `str::split_whitespace` yields them.
pub open spec fn words_from(s: Seq<char>, i: int) -> Seq<Seq<char>>
    decreases s.len() - i,
{
    if i < 0 || i >= s.len() {
        seq![]
    } else if is_whitespace(s[i]) {
        words_from(s, i + 1)
    } else {
        proof {
            lemma_word_end(s, i);
        }
        seq![s.subrange(i, word_end(s, i))] + words_from(s, word_end(s, i))
    }
}

/// The white-space-separated words of `s`.
pub open spec fn words(s: Seq<char>) -> Seq<Seq<char>> {
    words_from(s, 0)
}

/// The first of `ws` that begins with `p`, if any.
pub open spec fn first_with_prefix(ws: Seq<Seq<char>>, p: Seq<char>) -> Option<Seq<char>>
    decreases ws.len(),
{
    if ws.len() == 0 {
        None
    } else if is_prefix(p, ws[0]) {
        Some(ws[0])
    } else {
        first_with_prefix(ws.drop_first(), p)
    }
}

/// Where the word that starts at `i` ends.
pub fn find_word_end(s: &Vec<char>, i: usize) -> (e: usize)
    requires
        i <= s@.len(),
    ensures
        e == word_end(s@, i as int),
{
    let mut j: usize = i;
    while j < s.len() && !char_is_whitespace(s[j])
        invariant
            i <= j <= s@.len(),
            word_end(s@, i as int) == word_end(s@, j as int),
        decreases s@.len() - j,
    {
        j = j + 1;
    }
    j
}


/// A word put in front of a list is in the list exactly when it is that word
/// or already in the rest.
pub proof fn lemma_contains_cons(x: Seq<char>, rest: Seq<Seq<char>>, w: Seq<char>)
    ensures
        (seq![x] + rest).contains(w) <==> (x == w || rest.contains(w)),
{
    let l = seq![x] + rest;
    if rest.contains(w) {
        let k: int = choose|k: int| 0 <= k < rest.len() && rest[k] == w;
        assert(l[k + 1] == w);
    }
    if x == w {
        assert(l[0] == w);
    }
    if l.contains(w) {
        let k: int = choose|k: int| 0 <= k < l.len() && l[k] == w;
        if k > 0 {
            assert(rest[k - 1] == w);
        }
    }
}

/// Whether the words of `s` include `w`, and the bounds of the first word of
/// `s` that begins with `p`.
pub fn scan_words(s: &Vec<char>, w: &Vec<char>, p: &Vec<char>) -> (r: (bool, Option<(usize, usize)>))
    ensures
        r.0 == words(s@).contains(w@),
        match r.1 {
            Some((a, b)) => a <= b <= s@.len() && first_with_prefix(words(s@), p@) == Some(
                s@.subrange(a as int, b as int),
            ),
            None => first_with_prefix(words(s@), p@) is None,
        },
{
    let mut found: bool = false;
    let mut first: Option<(usize, usize)> = None;
    let mut i: usize = 0;
    while i < s.len()
        invariant
            i <= s@.len(),
            words(s@).contains(w@) == (found || words_from(s@, i as int).contains(w@)),
            match first {
                Some((a, b)) => a <= b <= s@.len() && first_with_prefix(words(s@), p@) == Some(
                    s@.subrange(a as int, b as int),
                ),
                None => first_with_prefix(words(s@), p@) == first_with_prefix(
                    words_from(s@, i as int),
                    p@,
                ),
            },
        decreases s@.len() - i,
    {
        if char_is_whitespace(s[i]) {
            i = i + 1;
        } else {
            let e: usize = find_word_end(s, i);
            proof {
                lemma_word_end(s@, i as int);
                lemma_contains_cons(
                    s@.subrange(i as int, e as int),
                    words_from(s@, e as int),
                    w@,
                );
                let l = seq![s@.subrange(i as int, e as int)] + words_from(s@, e as int);
                assert(words_from(s@, i as int) == l);
                assert(l.drop_first() =~= words_from(s@, e as int));
                assert(l[0] == s@.subrange(i as int, e as int));
            }
            if e - i == w.len() && has_prefix_at(s, i, e, w) {
                assert(s@.subrange(i as int, e as int).take(w@.len() as int) =~= s@.subrange(
                    i as int,
                    e as int,
                ));
                found = true;
            } else {
                if e - i == w.len() {
                    assert(s@.subrange(i as int, e as int).take(w@.len() as int) =~= s@.subrange(
                        i as int,
                        e as int,
                    ));
                }
            }
            if first.is_none() && has_prefix_at(s, i, e, p) {
                first = Some((i, e));
            }
            i = e;
        }
    }
    (found, first)
}

} // verus!
