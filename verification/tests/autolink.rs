use phroxy::autolink::{auto_link, or_plain, ANCHOR, URL_PATTERN};

#[test]
fn test_empty_string() {
    assert!(auto_link("") == "")
}

#[test]
fn test_string_without_urls() {
    let src = "<p>Some HTML</p>";
    assert!(auto_link(src) == src)
}

#[test]
fn test_string_with_http_urls() {
    let src = "Check this out: https://doc.rust-lang.org/\n
               https://fr.wikipedia.org/wiki/Caf%C3%A9ine";
    let linked = "Check this out: <a href=\"https://doc.rust-lang.org/\">https://doc.rust-lang.org/</a>\n
               <a href=\"https://fr.wikipedia.org/wiki/Caf%C3%A9ine\">https://fr.wikipedia.org/wiki/Caf%C3%A9ine</a>";
    assert!(auto_link(src) == linked)
}

#[test]
fn test_trailing_characters() {
    let src = "I miss the old http://google.com. Don't you?";
    let linked =
        "I miss the old <a href=\"http://google.com\">http://google.com</a>. Don't you?";
    assert!(auto_link(src) == linked)
}

#[test]
fn link_wraps_exactly_the_url() {
    assert_eq!(
        auto_link("See https://x.io now"),
        "See <a href=\"https://x.io\">https://x.io</a> now"
    );
    assert_eq!(
        auto_link("See https://x.io."),
        "See <a href=\"https://x.io\">https://x.io</a>."
    );
}

#[test]
fn www_counts_as_a_url() {
    assert_eq!(
        auto_link("go to www.example.com, now"),
        "go to <a href=\"www.example.com\">www.example.com</a>, now"
    );
}

#[test]
fn gopher_links_keep_their_scheme_here() {
    assert_eq!(
        auto_link("gopher://sdf.org/1/users"),
        "<a href=\"gopher://sdf.org/1/users\">gopher://sdf.org/1/users</a>"
    );
}

#[test]
fn refused_pattern_leaves_the_text() {
    let refused = regex::Regex::new("(").unwrap_err();
    assert_eq!(or_plain("see https://x.io", Err(refused)), "see https://x.io");
    assert_eq!(or_plain("before", Ok("after".to_string())), "after");
}

#[test]
fn pattern_and_anchor() {
    let re = regex::Regex::new(URL_PATTERN).unwrap();
    assert_eq!(re.replace_all("a http://b.c d", "[$0]"), "a [http://b.c] d");
    assert_eq!(ANCHOR, "<a href=\"$0\">$0</a>");
}
