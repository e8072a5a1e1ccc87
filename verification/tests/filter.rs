use phroxy::server::filter_gopher_response;
use phroxy::strip_ansi_escapes::{strip, Performer, Writer};

#[test]
fn test_filter_gopher_response() {
    assert_eq!(filter_gopher_response("Testing 1 2 3"), "Testing 1 2 3");

    assert_eq!(
        filter_gopher_response("One\n\tTwo\r\nThree"),
        "One\n\tTwo\r\nThree"
    );

    assert_eq!(
        filter_gopher_response("Welcome to \x1b[93;1mphetch\x1b[0m!"),
        "Welcome to phetch!"
    );

    assert_eq!(filter_gopher_response("
i> likes\t(null)\tphkt.io\t70
i\x1b[0mkitty, fish, c, rust, gopher, arch\t(null)\tphkt.io\t70
i\t(null)\tphkt.io\t70
i> dislikes\t(null)\tphkt.io\t70
i\x1b[0mcilantro, fig newtons, big files\t(null)\tphkt.io\t70
i\t(null)\tphkt.io\t70"), "\ni> likes\t(null)\tphkt.io\t70\nikitty, fish, c, rust, gopher, arch\t(null)\tphkt.io\t70\ni\t(null)\tphkt.io\t70\ni> dislikes\t(null)\tphkt.io\t70\nicilantro, fig newtons, big files\t(null)\tphkt.io\t70\ni\t(null)\tphkt.io\t70");
}

#[test]
fn strip_removes_colour_codes() {
    assert_eq!(
        strip(b"Welcome to \x1b[93;1mphetch\x1b[0m!"),
        b"Welcome to phetch!".to_vec()
    );
}

#[test]
fn strip_leaves_plain_text_alone() {
    let plain: Vec<u8> = (0x20u8..=0x7f).chain([b'\n', b'\t', b'\r']).collect();
    assert_eq!(strip(&plain), plain);
    assert_eq!(strip(b""), Vec::<u8>::new());
}

#[test]
fn strip_keeps_multi_byte_text() {
    let text = "caf\u{e9} \u{4e16}\u{754c} \u{1f600}";
    assert_eq!(strip(text.as_bytes()), text.as_bytes().to_vec());
    let coloured = "\x1b[31mcaf\u{e9}\x1b[0m";
    assert_eq!(strip(coloured.as_bytes()), "caf\u{e9}".as_bytes().to_vec());
}

#[test]
fn strip_drops_other_control_codes() {
    assert_eq!(strip(b"a\x07b\x00c\x08d"), b"abcd".to_vec());
    assert_eq!(strip(b"a\nb\tc\rd"), b"a\nb\tc\rd".to_vec());
}

#[test]
fn strip_drops_operating_system_commands() {
    assert_eq!(strip(b"\x1b]0;window title\x07text"), b"text".to_vec());
    assert_eq!(strip(b"one\x1b(Btwo"), b"onetwo".to_vec());
}

#[test]
fn strip_twice_is_strip_once() {
    let inputs: [&[u8]; 5] = [
        b"Welcome to \x1b[93;1mphetch\x1b[0m!",
        b"plain text\r\n",
        "\x1b[1mcaf\u{e9}\x1b[0m \u{4e16}".as_bytes(),
        b"\x1b]2;title\x07a\x00b",
        b"broken \xff\xfe bytes",
    ];
    for input in inputs {
        let once = strip(input);
        assert_eq!(strip(&once), once);
    }
}

#[test]
fn writer_strips_across_writes() {
    let mut writer = Writer::new(b"> ".to_vec());
    assert_eq!(writer.write(b"red \x1b[3"), 7);
    assert_eq!(writer.write(b"1mrose\x1b[0m"), 10);
    writer.flush();
    assert_eq!(writer.into_inner(), b"> red rose".to_vec());
}

#[test]
fn performer_writes_characters_and_kept_controls() {
    let mut performer = Performer::new(Vec::new());
    performer.put_char('a');
    performer.put_char('\u{e9}');
    performer.put_control(b'\n');
    performer.put_control(0x07);
    performer.put_control(b'\t');
    performer.put_control(b'\r');
    performer.flush();
    assert_eq!(performer.into_inner(), "a\u{e9}\n\t\r".as_bytes().to_vec());
}

#[test]
fn filter_keeps_the_response_when_nothing_was_stripped() {
    assert_eq!(filter_gopher_response(""), "");
    assert_eq!(filter_gopher_response("caf\u{e9}\r\n"), "caf\u{e9}\r\n");
}

#[test]
fn filter_strips_escapes_around_multi_byte_text() {
    assert_eq!(filter_gopher_response("\x1b[1mcaf\u{e9}\x1b[0m"), "caf\u{e9}");
}

#[test]
fn strip_keeps_every_width_of_character() {
    let text = "\u{20}\u{7e}\u{7f}\u{80}\u{9f}\u{a0}\u{7ff}\u{800}\u{d7ff}\u{e000}\u{fffd}\u{ffff}\u{10000}\u{10ffff}\n\t\r";
    assert_eq!(strip(text.as_bytes()), text.as_bytes().to_vec());
    assert_eq!(filter_gopher_response(text), text);
}

#[test]
fn strip_gives_valid_text_for_broken_bytes() {
    let out = strip(b"a\xc3(b\xe2\x82\xff\xf0\x9f\x1b[0mc\x80");
    let text = String::from_utf8(out).unwrap();
    assert!(text.chars().all(|c| c >= ' ' || c == '\n' || c == '\t' || c == '\r'));
    assert!(text.starts_with('a'));
}

#[test]
fn filter_twice_is_filter_once() {
    for input in ["Welcome to \x1b[93;1mphetch\x1b[0m!", "caf\u{e9}", "a\x07b", "\x1b]0;t\x07\u{4e16}"] {
        let once = filter_gopher_response(input);
        assert_eq!(filter_gopher_response(&once), once);
    }
}

fn is_kept_in_order(kept: &str, text: &str) -> bool {
    let mut rest = text.chars();
    kept.chars().all(|k| rest.any(|t| t == k))
}

#[test]
fn strip_only_drops_characters() {
    let inputs = [
        "Welcome to \x1b[93;1mphetch\x1b[0m!",
        "\x1b[1mcaf\u{e9}\x1b[0m \u{4e16}\u{754c}",
        "\x1bPq\u{dc}after",
        "\x1bPq\u{2705}x\u{2705}",
        "\x1b_\u{1f700}z\u{1f700}",
        "\x1bX\u{715c}\u{e9}tail",
        "\x1b]0;caf\u{e9}\x07\u{e9}",
        "\x1b\u{e9}a\u{e9}",
        "\x1b[\u{e9}m\u{e9}",
        "a\x00\u{80}\x18\u{9c}\x1a\u{fffd}b",
        "\u{fffd}\x1b[31m\u{fffd}",
        "tab\there\r\n\x0bend",
    ];
    for input in inputs {
        let out = String::from_utf8(strip(input.as_bytes())).unwrap();
        assert!(out.len() <= input.len());
        assert!(is_kept_in_order(&out, input));
        assert!(!out.contains('\x1b'));
        assert_eq!(filter_gopher_response(input), out);
    }
}

#[test]
fn filter_returns_what_strip_left() {
    assert_eq!(filter_gopher_response("a\x1b[0mb"), "ab");
    assert_eq!(filter_gopher_response("a\x07b"), "ab");
    assert_eq!(filter_gopher_response("\x1b[0m"), "");
}

#[test]
fn strip_keeps_its_rules_on_many_texts() {
    let alphabet = [
        '\x1b', '[', ']', 'P', 'X', '0', ';', 'm', '\x07', '\n', 'a', '\x18', '\u{e9}',
        '\u{dc}', '\u{9c}', '\u{2705}', '\u{1f700}',
    ];
    let mut texts: Vec<String> = vec![String::new()];
    let mut from = 0;
    for _ in 0..4 {
        let upto = texts.len();
        for i in from..upto {
            for c in alphabet {
                let mut longer = texts[i].clone();
                longer.push(c);
                texts.push(longer);
            }
        }
        from = upto;
    }
    for text in &texts {
        let out = strip(text.as_bytes());
        assert!(out.len() <= text.len());
        assert_eq!(strip(&out), out);
        let kept = String::from_utf8(out).unwrap();
        assert!(is_kept_in_order(&kept, text));
        assert!(kept.chars().all(|c| c >= ' ' || c == '\n' || c == '\t' || c == '\r'));
        if text.chars().all(|c| c >= ' ' || c == '\n') {
            assert_eq!(&kept, text);
        }
    }
}
