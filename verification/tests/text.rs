use anthropic_sdk::frame::find_separator;
use anthropic_sdk::text::{
    chars_of, is_whitespace_char, payload_start, same_text, skip_labels, skip_repeated,
    skip_whitespace, starts_with_at,
};

fn chars(s: &str) -> Vec<char> {
    s.chars().collect()
}

fn payload(frame: &str) -> String {
    let all = chars(frame);
    all[payload_start(&all)..].iter().collect()
}

#[test]
fn payload_stands_behind_label_and_prefix() {
    assert_eq!(payload("event: ping\ndata: {\"type\":\"ping\"}"), "{\"type\":\"ping\"}");
    assert_eq!(payload("data: {}"), "{}");
    assert_eq!(payload("event: message_stop\n\t data: x"), "x");
    assert_eq!(payload("data: data: x"), "data: x");
    assert_eq!(payload("data:  x"), " x");
}

#[test]
fn payload_without_prefix_keeps_its_white_space() {
    assert_eq!(payload("event: ping\n{}"), "\n{}");
    assert_eq!(payload("  {}"), "  {}");
    assert_eq!(payload("data:{}"), "data:{}");
    assert_eq!(payload("event: unknown\ndata: {}"), "event: unknown\ndata: {}");
    assert_eq!(payload(""), "");
}

#[test]
fn every_known_label_is_taken_off() {
    for label in [
        "message_start",
        "content_block_start",
        "ping",
        "content_block_delta",
        "content_block_stop",
        "message_delta",
        "message_stop",
    ] {
        let frame = format!("event: {label}\ndata: 1");
        assert_eq!(payload(&frame), "1");
        let all = chars(&frame);
        assert_eq!(skip_labels(&all), 7 + label.len());
    }
}

#[test]
fn labels_are_taken_off_in_their_fixed_order() {
    assert_eq!(skip_labels(&chars("event: pingevent: pingevent: message_stopx")), 41);
    assert_eq!(skip_labels(&chars("event: message_stopevent: pingx")), 19);
    assert_eq!(skip_labels(&chars("event: message_startevent: message_startevent: ping")), 51);
    assert_eq!(skip_labels(&chars("event: message_sto")), 0);
    assert_eq!(skip_labels(&chars(" event: ping")), 0);
}

#[test]
fn skip_repeated_takes_every_copy() {
    let all = chars("xxababababc");
    assert_eq!(skip_repeated(&all, 2, "ab"), 10);
    assert_eq!(skip_repeated(&all, 0, "ab"), 0);
    assert_eq!(skip_repeated(&all, 3, "ab"), 3);
    assert_eq!(skip_repeated(&all, 2, ""), 2);
    assert_eq!(skip_repeated(&all, 11, "ab"), 11);
    assert_eq!(skip_repeated(&chars("aaa"), 0, "aa"), 2);
}

#[test]
fn starts_with_at_compares_at_the_index() {
    let all = chars("h\u{00e9}llo");
    assert!(starts_with_at(&all, 1, &chars("\u{00e9}l")));
    assert!(!starts_with_at(&all, 0, &chars("\u{00e9}l")));
    assert!(starts_with_at(&all, 5, &chars("")));
    assert!(!starts_with_at(&all, 4, &chars("oo")));
    assert!(starts_with_at(&all, 0, &all));
}

#[test]
fn white_space_is_what_unicode_says() {
    for n in 0..=0x11_0000u32 {
        if let Some(c) = char::from_u32(n) {
            assert_eq!(is_whitespace_char(c), c.is_whitespace());
        }
    }
}

#[test]
fn skip_whitespace_stops_at_the_first_other_character() {
    assert_eq!(skip_whitespace(&chars(" \t\n\r\u{3000}\u{00a0}x y"), 0), 6);
    assert_eq!(skip_whitespace(&chars("x  y"), 0), 0);
    assert_eq!(skip_whitespace(&chars("x  y"), 1), 3);
    assert_eq!(skip_whitespace(&chars("   "), 1), 3);
    assert_eq!(skip_whitespace(&chars("\u{200b}"), 0), 0);
}

#[test]
fn chars_of_gives_the_characters() {
    assert_eq!(chars_of("a\u{00e9}\u{4e16}\u{1f600}"), vec!['a', '\u{00e9}', '\u{4e16}', '\u{1f600}']);
    assert_eq!(chars_of(""), Vec::<char>::new());
}

#[test]
fn same_text_compares_texts() {
    assert!(same_text("data: [DONE]", "data: [DONE]"));
    assert!(same_text("", ""));
    assert!(!same_text("data: [DONE]", "data: [DONE] "));
    assert!(!same_text("a", "b"));
    assert!(!same_text("\u{00e9}", "e"));
}

#[test]
fn find_separator_gives_the_first_blank_line() {
    assert_eq!(find_separator(b"ab\n\ncd\n\n"), Some(2));
    assert_eq!(find_separator(b"\n\n"), Some(0));
    assert_eq!(find_separator(b"a\n\n\n"), Some(1));
    assert_eq!(find_separator(b"a\nb\n"), None);
    assert_eq!(find_separator(b"a\r\n\r\n"), None);
    assert_eq!(find_separator(b"\n"), None);
    assert_eq!(find_separator(b""), None);
}
