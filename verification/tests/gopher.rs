use phroxy::gopher::{
    begins_lines_with_ascii, lines_from, parse_menu, stops_client, type_for_url, url_type,
    ItemType,
};

const ALL: [(char, ItemType, &str); 23] = [
    ('0', ItemType::Text, "Text"),
    ('1', ItemType::Menu, "Menu"),
    ('2', ItemType::CSOEntity, "CSOEntity"),
    ('3', ItemType::Error, "Error"),
    ('4', ItemType::Binhex, "Binhex"),
    ('5', ItemType::DOSFile, "DOSFile"),
    ('6', ItemType::UUEncoded, "UUEncoded"),
    ('7', ItemType::Search, "Search"),
    ('8', ItemType::Telnet, "Telnet"),
    ('9', ItemType::Binary, "Binary"),
    ('+', ItemType::Mirror, "Mirror"),
    ('g', ItemType::GIF, "GIF"),
    ('T', ItemType::Telnet3270, "Telnet3270"),
    ('h', ItemType::HTML, "HTML"),
    ('I', ItemType::Image, "Image"),
    ('p', ItemType::PNG, "PNG"),
    ('i', ItemType::Info, "Info"),
    ('s', ItemType::Sound, "Sound"),
    ('d', ItemType::Document, "Document"),
    (';', ItemType::Video, "Video"),
    ('x', ItemType::Xml, "Xml"),
    ('c', ItemType::Calendar, "Calendar"),
    ('M', ItemType::Mailbox, "Mailbox"),
];

#[test]
fn item_types_and_their_characters() {
    for (code, typ, name) in ALL {
        assert_eq!(ItemType::from_char(code), Some(typ));
        assert_eq!(typ.to_char(), code);
        assert_eq!(typ.name(), name);
        assert_eq!(format!("{:?}", typ), name);
    }
    assert_eq!(ItemType::from_char('?'), None);
    assert_eq!(ItemType::from_char('t'), None);
}

#[test]
fn item_types_agree_with_the_client() {
    for (code, typ, name) in ALL {
        let theirs = phetch::gopher::Type::from(code).unwrap();
        assert_eq!(format!("{:?}", theirs), name);
        assert_eq!(theirs.to_char(), typ.to_char());
        assert_eq!(theirs.is_text(), typ.is_text());
        assert_eq!(theirs.is_html(), typ.is_html());
        assert_eq!(theirs.is_info(), typ.is_info());
        assert_eq!(theirs == phetch::gopher::Type::Search, typ.is_search());
    }
}

#[test]
fn item_type_kinds() {
    assert!(ItemType::Text.is_text());
    assert!(ItemType::Xml.is_text());
    assert!(!ItemType::Menu.is_text());
    assert!(ItemType::HTML.is_html());
    assert!(!ItemType::Text.is_html());
    assert!(ItemType::Info.is_info());
    assert!(!ItemType::Error.is_info());
    assert!(ItemType::Search.is_search());
    assert!(!ItemType::Menu.is_search());
}

#[test]
fn type_read_from_a_locator() {
    assert_eq!(type_for_url("phkt.io"), ItemType::Menu);
    assert_eq!(type_for_url("phkt.io/1"), ItemType::Menu);
    assert_eq!(type_for_url("phkt.io/0/info.txt"), ItemType::Text);
    assert_eq!(type_for_url("gopher://phkt.io/9/file"), ItemType::Binary);
    assert_eq!(type_for_url("URL:https://google.com"), ItemType::HTML);
    assert_eq!(type_for_url("telnet://bbs.inter.net:6502/connect"), ItemType::Telnet);
    assert_eq!(type_for_url("phkt.io/?/what"), ItemType::Menu);
}

#[test]
fn type_found_by_taking_a_locator_apart() {
    assert_eq!(url_type("gopher://gopher.club/1/phlogs/"), ItemType::Menu);
    assert_eq!(url_type("gopher.floodgap.com/0/gopher/relevance.txt"), ItemType::Text);
    assert_eq!(url_type("gopher://gopherpedia.com/7/lookup?Gopher"), ItemType::Search);
    assert_eq!(url_type("https://github.com/xvxx/phetch"), ItemType::HTML);
    assert_eq!(url_type("telnet://bbs.impakt.net:6502/"), ItemType::Telnet);
    assert_eq!(url_type("gopher://some.url/9/file.mp4"), ItemType::Binary);
    assert_eq!(url_type("can dogs talk"), ItemType::Menu);
    assert_eq!(url_type("gopher://[::1]:7443/0/files"), ItemType::Text);
    assert_eq!(url_type("a[]/I/x"), ItemType::Image);
}

#[test]
fn menu_is_split_into_lines() {
    let lines = parse_menu(
        "phkt.io",
        "iHello there\t(null)\tphkt.io\t70\r\n\n1Code\t/code\tphkt.io\t70\r\n8BBS\t\tbbs.example\t23\r\nQodd\t/odd\tphkt.io\t70\r\n.\r\nignored\r\n",
    )
    .unwrap();
    let plain: Vec<(ItemType, &str, &str)> =
        lines.iter().map(|l| (l.typ, l.text.as_str(), l.url.as_str())).collect();
    assert_eq!(
        plain,
        vec![
            (ItemType::Info, "Hello there", ""),
            (ItemType::Menu, "Code", "gopher://phkt.io/1/code"),
            (ItemType::Telnet, "BBS", "telnet://bbs.example:23"),
            (ItemType::Binary, "odd", "gopher://phkt.io/9/odd"),
        ]
    );
}

#[test]
fn menu_is_split_without_a_final_line_feed() {
    let lines = parse_menu("phkt.io", "1Caf\u{e9}\t/caf\u{e9}\tphkt.io\t70").unwrap();
    assert_eq!(lines.len(), 1);
    assert_eq!(lines[0].typ, ItemType::Menu);
    assert_eq!(lines[0].text, "Caf\u{e9}");
    assert_eq!(lines[0].url, "gopher://phkt.io/1/caf\u{e9}");
    assert_eq!(parse_menu("phkt.io", "").unwrap().len(), 0);
}

#[test]
fn menu_with_a_line_that_begins_outside_ascii_is_not_split() {
    assert!(parse_menu("phkt.io", "\u{e9}").is_none());
    assert!(parse_menu("phkt.io", "iok\n\u{4e16}\n").is_none());
    assert!(parse_menu("phkt.io", "iok \u{4e16}\n").is_some());
}

#[test]
fn lines_that_begin_with_ascii() {
    let check = |s: &str| begins_lines_with_ascii(&s.chars().collect::<Vec<char>>());
    assert!(check(""));
    assert!(check("abc\ndef"));
    assert!(check("a\u{e9}\n\nb\u{e9}"));
    assert!(!check("\u{e9}a"));
    assert!(!check("a\n\u{e9}"));
    assert!(check("a\n"));
}

#[test]
fn lines_from_plain_values() {
    let lines = lines_from(vec![
        ('1', "Code".to_string(), "gopher://phkt.io/1/code".to_string()),
        ('?', "odd".to_string(), "".to_string()),
        ('i', "".to_string(), "".to_string()),
    ]);
    assert_eq!(lines.len(), 3);
    assert_eq!(lines[0].typ, ItemType::Menu);
    assert_eq!(lines[0].text, "Code");
    assert_eq!(lines[0].url, "gopher://phkt.io/1/code");
    assert_eq!(lines[1].typ, ItemType::Binary);
    assert_eq!(lines[1].text, "odd");
    assert_eq!(lines[2].typ, ItemType::Info);
    assert_eq!(lines[2].text, "");
    assert_eq!(lines_from(Vec::new()).len(), 0);
}

#[test]
fn type_of_a_locator_with_brackets() {
    assert_eq!(url_type("https://example.com/?a[]=1"), ItemType::HTML);
    assert_eq!(url_type("[abc/1"), ItemType::Error);
    assert_eq!(url_type("[2001:db8::1]/0/x"), ItemType::Text);
    assert_eq!(url_type("host/1/a[1]"), ItemType::Menu);
    assert_eq!(url_type("telnet://ab[cdefg]:23"), ItemType::Telnet);
    assert_eq!(url_type("telnet://a[]/1"), ItemType::Telnet);
    assert_eq!(url_type("a[]"), ItemType::Menu);
}

#[test]
fn locators_that_stop_the_client() {
    assert!(stops_client(b"a[]/0/x"));
    assert!(stops_client(b"gopher://gopher://a[]:70"));
    assert!(stops_client(b"telnet://a[]/1"));
    assert!(stops_client(b"abc[d]:1"));
    assert!(stops_client("a[\u{e9}\u{e9}]/".as_bytes()));
    assert!(!stops_client("\u{e9}[a\u{e9}]/".as_bytes()));
    assert!(!stops_client(b"ab[cdefg]/0/x"));
    assert!(!stops_client(b"[]/"));
    assert!(!stops_client(b"[::1]:70/1/x"));
    assert!(!stops_client(b"a[]"));
    assert!(!stops_client(b"a[/b]"));
    assert!(!stops_client(b"x/a[]"));
    assert!(!stops_client(b"a]b[/"));
    assert!(!stops_client(b"https://a[]/"));
    assert!(!stops_client(b"a[]://b"));
    assert!(!stops_client(b""));
}

#[test]
fn no_locator_stops_the_gateway() {
    let alphabet = ['a', '[', ']', ':', '/', '\u{e9}', '1'];
    let mut locators: Vec<String> = vec![String::new()];
    let mut from = 0;
    for _ in 0..5 {
        let upto = locators.len();
        for i in from..upto {
            for c in alphabet {
                let mut longer = locators[i].clone();
                longer.push(c);
                locators.push(longer);
            }
        }
        from = upto;
    }
    for locator in &locators {
        for scheme in ["", "gopher://", "telnet://", "gopher://telnet://"] {
            let url = format!("{}{}", scheme, locator);
            let typ = url_type(&url);
            if !stops_client(url.as_bytes()) {
                assert_eq!(typ.to_char(), phetch::gopher::parse_url(&url).typ.to_char());
            }
        }
    }
}

fn type_read_by_hand(url: &str) -> ItemType {
    if url.starts_with("telnet://") {
        return ItemType::Telnet;
    }
    if url.starts_with("URL:") || url.starts_with("/URL:") {
        return ItemType::HTML;
    }
    let mut rest: Vec<char> = url.chars().collect();
    let scheme: Vec<char> = "gopher://".chars().collect();
    while rest.starts_with(&scheme) {
        rest.drain(..scheme.len());
    }
    let slash = rest.iter().position(|c| *c == '/').unwrap_or(rest.len());
    let before: String = rest[..slash].iter().collect();
    let at = before.len() + 1;
    if slash < rest.len() && at < rest.len() {
        ItemType::from_char(rest[at]).unwrap_or(ItemType::Menu)
    } else {
        ItemType::Menu
    }
}

#[test]
fn type_read_from_text_counts_bytes_before_the_slash() {
    assert_eq!(type_for_url("\u{e9}/10"), ItemType::Text);
    assert_eq!(type_for_url("\u{e9}/0"), ItemType::Menu);
    assert_eq!(type_for_url("gopher://gopher://a/9"), ItemType::Binary);
    assert_eq!(type_for_url("/URL:x"), ItemType::HTML);
    assert_eq!(type_for_url("gopher://telnet://a/0"), ItemType::Menu);
    assert_eq!(type_for_url("a/"), ItemType::Menu);
}

#[test]
fn type_read_from_text_on_many_locators() {
    let alphabet = ['a', '/', '0', '9', ':', '\u{e9}', '\u{4e16}', 'U'];
    let mut locators: Vec<String> = vec![String::new()];
    let mut from = 0;
    for _ in 0..5 {
        let upto = locators.len();
        for i in from..upto {
            for c in alphabet {
                let mut longer = locators[i].clone();
                longer.push(c);
                locators.push(longer);
            }
        }
        from = upto;
    }
    for locator in &locators {
        for scheme in ["", "gopher://", "telnet://", "URL:", "/URL:", "gopher://gopher://"] {
            let url = format!("{}{}", scheme, locator);
            assert_eq!(type_for_url(&url), type_read_by_hand(&url));
        }
    }
}
