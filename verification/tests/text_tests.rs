use lib::text::{contains_chars, join_strings, str_equals, trim_str};
use lib::words::scan_words;

fn chars(s: &str) -> Vec<char> {
    s.chars().collect()
}

#[test]
fn trim_matches_std() {
    for s in ["", "  ", " hello world \n", "\t\u{3000}x\u{85}", "no-trim", "\u{a0}a b\u{2009}"] {
        assert_eq!(trim_str(s), s.trim(), "{s:?}");
    }
}

#[test]
fn substring_search() {
    assert!(contains_chars(&chars("at translated set 2 keyboard"), &chars("keyboard")));
    assert!(contains_chars(&chars("abc"), &chars("")));
    assert!(!contains_chars(&chars("lid swi"), &chars("lid switch")));
    assert!(!contains_chars(&chars(""), &chars("a")));
}

#[test]
fn join_with_separator() {
    let parts: Vec<String> = vec!["a".into(), "b".into(), "c".into()];
    assert_eq!(join_strings(&parts, ", "), "a, b, c");
    assert_eq!(join_strings(&vec![], ", "), "");
    assert_eq!(join_strings(&vec!["only".to_string()], "-"), "only");
}

#[test]
fn equality_of_strings() {
    assert!(str_equals("run", "run"));
    assert!(!str_equals("run", "rune"));
}

#[test]
fn words_are_scanned_like_split_whitespace() {
    let (kbd, first) = scan_words(&chars("sysrq kbd leds event3 event4 rfkill"), &chars("kbd"), &chars("event"));
    assert!(kbd);
    assert_eq!(first, Some((15, 21)));
    let (kbd, first) = scan_words(&chars("  kbdx  mouse0 \t"), &chars("kbd"), &chars("event"));
    assert!(!kbd);
    assert_eq!(first, None);
}
