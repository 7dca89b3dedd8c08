use lib::keyboard::{keyboard_device, parse_devices};

fn view(s: &str) -> Vec<(String, Option<String>, bool)> {
    parse_devices(s).into_iter().map(|d| (d.name, d.event_path, d.has_kbd_handler)).collect()
}

const A: &str = "N: Name=\"AT Translated Set 2 keyboard\"\nH: Handlers=sysrq kbd leds event3\n\n";
const B: &str = "N: Name=\"Logitech USB Receiver\"\nH: Handlers=kbd event5\n";

#[test]
fn ignored_lines_change_nothing() {
    let plain = format!("{A}{B}");
    let busy = format!("I: Bus=0011\n{A}P: Phys=isa0060/serio0/input0\n{B}B: EV=120013\r\n");
    assert_eq!(view(&busy), view(&plain));
}

#[test]
fn blank_lines_may_be_doubled_or_added_at_the_ends() {
    let s = format!("{A}{B}");
    assert_eq!(view(&format!("{A}\n{B}")), view(&s));
    assert_eq!(view(&format!("\n{s}")), view(&s));
    assert_eq!(view(&format!("{s}\n\n")), view(&s));
    let unterminated = "N: Name=x\nH: Handlers=kbd event1";
    assert_eq!(view(&format!("{unterminated}\n\n")), view(unterminated));
}

#[test]
fn listings_concatenate() {
    let joined = view(&format!("{A}{B}"));
    let mut apart = view(A);
    apart.extend(view(B));
    assert_eq!(joined, apart);
    assert_eq!(joined.len(), 2);
}

#[test]
fn crlf_blank_lines_may_be_doubled() {
    let s = format!("{A}{B}");
    let crlf = "N: Name=x\r\nH: Handlers=kbd event1\r\n\r\nN: Name=y\r\n";
    let doubled = "N: Name=x\r\nH: Handlers=kbd event1\r\n\r\n\r\nN: Name=y\r\n";
    assert_eq!(view(doubled), view(crlf));
    assert_eq!(view(&format!("\r\n{s}")), view(&s));
    assert_eq!(view(&format!("{s}\r\n\n")), view(&s));
}

#[test]
fn ignored_lines_after_an_unterminated_last_line() {
    let s = "N: Name=x\nH: Handlers=kbd event1";
    assert_eq!(view(&format!("{s}\nI: Bus=0011\nB: EV=3\n")), view(s));
    assert_eq!(view(&format!("{A}B: EV=3")), view(A));
}

#[test]
fn named_listings_concatenate() {
    let a = "N: Name=a\nH: Handlers=kbd event1\n\nI: Bus=1\n\n";
    let mut apart = view(a);
    apart.extend(view(B));
    assert_eq!(view(&format!("{a}{B}")), apart);
}

#[test]
fn configured_device_wins_over_detection() {
    let listing = Some(format!("{A}"));
    assert_eq!(keyboard_device(&Some("/dev/input/event9".to_string()), &listing).as_deref(), Some("/dev/input/event9"));
    assert_eq!(keyboard_device(&None, &listing).as_deref(), Some("/dev/input/event3"));
    assert_eq!(keyboard_device(&None, &None), None);
}
