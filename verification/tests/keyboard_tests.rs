use lib::keyboard::{autodetect, parse_devices, pick_keyboard, Device};

const LISTING: &str = "I: Bus=0019 Vendor=0000 Product=0005 Version=0000
N: Name=\"Lid Switch\"
P: Phys=PNP0C0D/button/input0
H: Handlers=event0
B: EV=21

I: Bus=0019 Vendor=0000 Product=0001 Version=0000
N: Name=\"Power Button\"
H: Handlers=kbd event2
B: EV=3

I: Bus=0011 Vendor=0001 Product=0001 Version=ab83
N: Name=\"AT Translated Set 2 keyboard\"
P: Phys=isa0060/serio0/input0
H: Handlers=sysrq kbd leds event3
B: EV=120013

I: Bus=0003 Vendor=046d Product=c52b Version=0111
N: Name=\"Logitech USB Receiver\"
H: Handlers=sysrq kbd event5 leds
";

fn device(name: &str, event: Option<&str>, kbd: bool) -> Device {
    Device { name: name.to_string(), event_path: event.map(|e| e.to_string()), has_kbd_handler: kbd }
}

#[test]
fn parses_device_blocks() {
    let ds = parse_devices(LISTING);
    assert_eq!(ds.len(), 4);
    assert_eq!(ds[0].name, "Lid Switch");
    assert_eq!(ds[0].event_path.as_deref(), Some("/dev/input/event0"));
    assert!(!ds[0].has_kbd_handler);
    assert_eq!(ds[1].name, "Power Button");
    assert!(ds[1].has_kbd_handler);
    assert_eq!(ds[2].name, "AT Translated Set 2 keyboard");
    assert_eq!(ds[2].event_path.as_deref(), Some("/dev/input/event3"));
    assert!(ds[2].has_kbd_handler);
    assert_eq!(ds[3].name, "Logitech USB Receiver");
    assert_eq!(ds[3].event_path.as_deref(), Some("/dev/input/event5"));
}

#[test]
fn prefers_a_device_named_keyboard() {
    assert_eq!(autodetect(LISTING).as_deref(), Some("/dev/input/event3"));
}

#[test]
fn falls_back_to_first_candidate() {
    let listing = "N: Name=\"Power Button\"\nH: Handlers=kbd event1\n\nN: Name=\"Logitech USB Receiver\"\nH: Handlers=kbd event5\n\nN: Name=\"Other thing\"\nH: Handlers=kbd event6\n";
    assert_eq!(autodetect(listing).as_deref(), Some("/dev/input/event5"));
}

#[test]
fn nothing_without_kbd_handler() {
    let listing = "N: Name=\"USB Mouse\"\nH: Handlers=mouse0 event4\n";
    assert_eq!(autodetect(listing), None);
    assert_eq!(autodetect(""), None);
}

#[test]
fn kbd_without_event_node_is_skipped() {
    let listing = "N: Name=\"Keyboard\"\nH: Handlers=kbd\n\nN: Name=\"Keypad\"\nH: Handlers=kbd event9\n";
    assert_eq!(autodetect(listing).as_deref(), Some("/dev/input/event9"));
}

#[test]
fn names_are_matched_case_insensitively() {
    let listing = "N: Name=\"SLEEP BUTTON\"\nH: Handlers=kbd event1\n\nN: Name=\"Some KEYBOARD\"\nH: Handlers=kbd event2\n";
    assert_eq!(autodetect(listing).as_deref(), Some("/dev/input/event2"));
}

#[test]
fn crlf_lines_and_missing_trailing_blank_line() {
    let listing = "N: Name=\"Kbd\"\r\nH: Handlers=kbd event7\r\n\r\nN: Name=\"Last\"\nH: Handlers=event8";
    let ds = parse_devices(listing);
    assert_eq!(ds.len(), 2);
    assert_eq!(ds[0].name, "Kbd");
    assert_eq!(ds[0].event_path.as_deref(), Some("/dev/input/event7"));
    assert_eq!(ds[1].event_path.as_deref(), Some("/dev/input/event8"));
}

#[test]
fn nameless_block_hands_its_event_node_on() {
    let listing = "H: Handlers=kbd event1\n\nN: Name=\"Named\"\n\n";
    let ds = parse_devices(listing);
    assert_eq!(ds.len(), 1);
    assert_eq!(ds[0].name, "Named");
    assert_eq!(ds[0].event_path.as_deref(), Some("/dev/input/event1"));
    assert!(!ds[0].has_kbd_handler);
}

#[test]
fn quotes_are_trimmed_and_empty_names_dropped() {
    let ds = parse_devices("N: Name=\"\"\"\nH: Handlers=kbd\n\nN: Name=a\"b\n");
    assert_eq!(ds.len(), 1);
    assert_eq!(ds[0].name, "a\"b");
}

#[test]
fn pick_from_given_lowercase_names() {
    let ds = vec![device("X", Some("/dev/input/event1"), true), device("Y", Some("/dev/input/event2"), true)];
    let lowered = vec!["lid switch".to_string(), "y".to_string()];
    assert_eq!(pick_keyboard(&ds, &lowered).as_deref(), Some("/dev/input/event2"));
    let lowered = vec!["my keyboard".to_string(), "my keyboard".to_string()];
    assert_eq!(pick_keyboard(&ds, &lowered).as_deref(), Some("/dev/input/event1"));
}

/// The listing read with std's own string methods, for comparison.
fn devices_by_std(contents: &str) -> Vec<(String, Option<String>, bool)> {
    let mut out = Vec::new();
    let mut name = String::new();
    let mut event_path: Option<String> = None;
    let mut kbd = false;
    for line in contents.lines() {
        if line.is_empty() {
            if !name.is_empty() {
                out.push((name.clone(), event_path.take(), kbd));
            }
            name.clear();
            kbd = false;
            continue;
        }
        if let Some(rest) = line.strip_prefix("N: Name=") {
            name = rest.trim_matches('"').to_string();
        } else if let Some(rest) = line.strip_prefix("H: Handlers=") {
            kbd = rest.split_whitespace().any(|h| h == "kbd");
            event_path = rest
                .split_whitespace()
                .find(|h| h.starts_with("event"))
                .map(|h| std::path::Path::new("/dev/input").join(h).to_str().unwrap().to_string());
        }
    }
    if !name.is_empty() {
        out.push((name, event_path, kbd));
    }
    out
}

#[test]
fn parsing_agrees_with_std_string_methods() {
    let inputs = [
        LISTING,
        "",
        "\n\n\n",
        "N: Name=\"A\"\r",
        "N: Name=\"A\"\r\nH: Handlers=\u{3000}kbd\u{a0}event1\n\r\n",
        "N: Name=x\nN: Name=y\nH: Handlers=event1 kbd\nH: Handlers=mouse\n\nN: Name=z\n",
        "H: Handlers=kbd event1\n\n\nN: Name=late\n",
        "N: Name=\"\"\nH: Handlers=kbd event2\n\nN: Name=next",
        "N:Name=nospace\nH:Handlers=kbd event1\n",
        "\r\n\r\nN: Name=\"only\"\n\n",
    ];
    for input in inputs {
        let got: Vec<(String, Option<String>, bool)> = parse_devices(input)
            .into_iter()
            .map(|d| (d.name, d.event_path, d.has_kbd_handler))
            .collect();
        assert_eq!(got, devices_by_std(input), "{input:?}");
    }
}
