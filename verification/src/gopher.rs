//! Gopher item types and menu lines, as the Gopher client reads them.
//!
//! The client tells a locator's item type and splits a menu into its lines.
//! What it finds comes back as plain values: an item type by its character,
//! a line by its type, its text and the locator it points to.

use crate::text::{chars_of, has_prefix, string_of};
use vstd::prelude::*;
use vstd::string::*;
use vstd::utf8::encode_utf8;

verus! {

/// The type of a Gopher item, which says how to read it.
#[derive(Clone, Copy, Debug, PartialEq, Eq, Structural)]
pub enum ItemType {
    Text,
    Menu,
    CSOEntity,
    Error,
    Binhex,
    DOSFile,
    UUEncoded,
    Search,
    Telnet,
    Binary,
    Mirror,
    GIF,
    Telnet3270,
    HTML,
    Image,
    PNG,
    Info,
    Sound,
    Document,
    Video,
    Xml,
    Calendar,
    Mailbox,
}

impl ItemType {
    /// The item type that a character stands for in a menu or a locator.
    pub open spec fn of_char(c: char) -> Option<ItemType> {
        match c {
            '0' => Some(ItemType::Text),
            '1' => Some(ItemType::Menu),
            '2' => Some(ItemType::CSOEntity),
            '3' => Some(ItemType::Error),
            '4' => Some(ItemType::Binhex),
            '5' => Some(ItemType::DOSFile),
            '6' => Some(ItemType::UUEncoded),
            '7' => Some(ItemType::Search),
            '8' => Some(ItemType::Telnet),
            '9' => Some(ItemType::Binary),
            '+' => Some(ItemType::Mirror),
            'g' => Some(ItemType::GIF),
            'T' => Some(ItemType::Telnet3270),
            'h' => Some(ItemType::HTML),
            'I' => Some(ItemType::Image),
            'p' => Some(ItemType::PNG),
            'i' => Some(ItemType::Info),
            's' => Some(ItemType::Sound),
            'd' => Some(ItemType::Document),
            ';' => Some(ItemType::Video),
            'x' => Some(ItemType::Xml),
            'c' => Some(ItemType::Calendar),
            'M' => Some(ItemType::Mailbox),
            _ => None,
        }
    }

    /// The item type that `c` stands for, or `fallback` where it stands for
    /// none.
    pub open spec fn of_char_or(c: char, fallback: ItemType) -> ItemType {
        match ItemType::of_char(c) {
            Some(t) => t,
            None => fallback,
        }
    }

    /// The character that stands for this item type.
    pub open spec fn code(self) -> char {
        match self {
            ItemType::Text => '0',
            ItemType::Menu => '1',
            ItemType::CSOEntity => '2',
            ItemType::Error => '3',
            ItemType::Binhex => '4',
            ItemType::DOSFile => '5',
            ItemType::UUEncoded => '6',
            ItemType::Search => '7',
            ItemType::Telnet => '8',
            ItemType::Binary => '9',
            ItemType::Mirror => '+',
            ItemType::GIF => 'g',
            ItemType::Telnet3270 => 'T',
            ItemType::HTML => 'h',
            ItemType::Image => 'I',
            ItemType::PNG => 'p',
            ItemType::Info => 'i',
            ItemType::Sound => 's',
            ItemType::Document => 'd',
            ItemType::Video => ';',
            ItemType::Xml => 'x',
            ItemType::Calendar => 'c',
            ItemType::Mailbox => 'M',
        }
    }

    /// The name of this item type, as pages show it.
    pub open spec fn label(self) -> Seq<char> {
        match self {
            ItemType::Text => "Text"@,
            ItemType::Menu => "Menu"@,
            ItemType::CSOEntity => "CSOEntity"@,
            ItemType::Error => "Error"@,
            ItemType::Binhex => "Binhex"@,
            ItemType::DOSFile => "DOSFile"@,
            ItemType::UUEncoded => "UUEncoded"@,
            ItemType::Search => "Search"@,
            ItemType::Telnet => "Telnet"@,
            ItemType::Binary => "Binary"@,
            ItemType::Mirror => "Mirror"@,
            ItemType::GIF => "GIF"@,
            ItemType::Telnet3270 => "Telnet3270"@,
            ItemType::HTML => "HTML"@,
            ItemType::Image => "Image"@,
            ItemType::PNG => "PNG"@,
            ItemType::Info => "Info"@,
            ItemType::Sound => "Sound"@,
            ItemType::Document => "Document"@,
            ItemType::Video => "Video"@,
            ItemType::Xml => "Xml"@,
            ItemType::Calendar => "Calendar"@,
            ItemType::Mailbox => "Mailbox"@,
        }
    }

    /// The item type that a character stands for.
    pub fn from_char(c: char) -> (t: Option<ItemType>)
        ensures
            t == ItemType::of_char(c),
    {
        match c {
            '0' => Some(ItemType::Text),
            '1' => Some(ItemType::Menu),
            '2' => Some(ItemType::CSOEntity),
            '3' => Some(ItemType::Error),
            '4' => Some(ItemType::Binhex),
            '5' => Some(ItemType::DOSFile),
            '6' => Some(ItemType::UUEncoded),
            '7' => Some(ItemType::Search),
            '8' => Some(ItemType::Telnet),
            '9' => Some(ItemType::Binary),
            '+' => Some(ItemType::Mirror),
            'g' => Some(ItemType::GIF),
            'T' => Some(ItemType::Telnet3270),
            'h' => Some(ItemType::HTML),
            'I' => Some(ItemType::Image),
            'p' => Some(ItemType::PNG),
            'i' => Some(ItemType::Info),
            's' => Some(ItemType::Sound),
            'd' => Some(ItemType::Document),
            ';' => Some(ItemType::Video),
            'x' => Some(ItemType::Xml),
            'c' => Some(ItemType::Calendar),
            'M' => Some(ItemType::Mailbox),
            _ => None,
        }
    }

    /// The character that stands for this item type.
    pub fn to_char(self) -> (c: char)
        ensures
            c == self.code(),
            ItemType::of_char(c) == Some(self),
    {
        match self {
            ItemType::Text => '0',
            ItemType::Menu => '1',
            ItemType::CSOEntity => '2',
            ItemType::Error => '3',
            ItemType::Binhex => '4',
            ItemType::DOSFile => '5',
            ItemType::UUEncoded => '6',
            ItemType::Search => '7',
            ItemType::Telnet => '8',
            ItemType::Binary => '9',
            ItemType::Mirror => '+',
            ItemType::GIF => 'g',
            ItemType::Telnet3270 => 'T',
            ItemType::HTML => 'h',
            ItemType::Image => 'I',
            ItemType::PNG => 'p',
            ItemType::Info => 'i',
            ItemType::Sound => 's',
            ItemType::Document => 'd',
            ItemType::Video => ';',
            ItemType::Xml => 'x',
            ItemType::Calendar => 'c',
            ItemType::Mailbox => 'M',
        }
    }

    /// The name of this item type.
    pub fn name(self) -> (name: &'static str)
        ensures
            name@ == self.label(),
    {
        match self {
            ItemType::Text => "Text",
            ItemType::Menu => "Menu",
            ItemType::CSOEntity => "CSOEntity",
            ItemType::Error => "Error",
            ItemType::Binhex => "Binhex",
            ItemType::DOSFile => "DOSFile",
            ItemType::UUEncoded => "UUEncoded",
            ItemType::Search => "Search",
            ItemType::Telnet => "Telnet",
            ItemType::Binary => "Binary",
            ItemType::Mirror => "Mirror",
            ItemType::GIF => "GIF",
            ItemType::Telnet3270 => "Telnet3270",
            ItemType::HTML => "HTML",
            ItemType::Image => "Image",
            ItemType::PNG => "PNG",
            ItemType::Info => "Info",
            ItemType::Sound => "Sound",
            ItemType::Document => "Document",
            ItemType::Video => "Video",
            ItemType::Xml => "Xml",
            ItemType::Calendar => "Calendar",
            ItemType::Mailbox => "Mailbox",
        }
    }

    /// Whether an item of this type is a text document.
    pub fn is_text(self) -> (yes: bool)
        ensures
            yes == (self == ItemType::Text || self == ItemType::Xml),
    {
        match self {
            ItemType::Text | ItemType::Xml => true,
            _ => false,
        }
    }

    /// Whether an item of this type is a link to a web page.
    pub fn is_html(self) -> (yes: bool)
        ensures
            yes == (self == ItemType::HTML),
    {
        match self {
            ItemType::HTML => true,
            _ => false,
        }
    }

    /// Whether an item of this type is a line of information.
    pub fn is_info(self) -> (yes: bool)
        ensures
            yes == (self == ItemType::Info),
    {
        match self {
            ItemType::Info => true,
            _ => false,
        }
    }

    /// Whether an item of this type is a search.
    pub fn is_search(self) -> (yes: bool)
        ensures
            yes == (self == ItemType::Search),
    {
        match self {
            ItemType::Search => true,
            _ => false,
        }
    }
}

/// One line of a Gopher menu.
pub struct MenuLine {
    /// The type of the item that the line stands for.
    pub typ: ItemType,
    /// The text that the line shows.
    pub text: String,
    /// The locator that the line points to; empty where it points nowhere.
    pub url: String,
}

/// A menu line as a plain value.
pub struct MenuLineView {
    pub typ: ItemType,
    pub text: Seq<char>,
    pub url: Seq<char>,
}

impl View for MenuLine {
    type V = MenuLineView;

    open spec fn view(&self) -> MenuLineView {
        MenuLineView { typ: self.typ, text: self.text@, url: self.url@ }
    }
}

/// `s` without every leading repetition of `prefix`.
pub open spec fn without_leading_text(s: Seq<char>, prefix: Seq<char>) -> Seq<char>
    decreases s.len(),
{
    if prefix.len() > 0 && has_prefix(s, prefix) {
        without_leading_text(s.subrange(prefix.len() as int, s.len() as int), prefix)
    } else {
        s
    }
}

/// Where the first slash of `s` at or after `from` stands, or the length of
/// `s` where it holds none.
pub open spec fn first_slash(s: Seq<char>, from: int) -> int
    decreases s.len() - from,
{
    if from < 0 || from >= s.len() {
        s.len() as int
    } else if s[from] == '/' {
        from
    } else {
        first_slash(s, from + 1)
    }
}

/// The item type that the client reads from the text of a locator. A
/// telnet locator is a telnet session and a locator marked `URL:` a web
/// page. In any other, the leading `gopher://` passed over, the type is the
/// character behind the first slash. The client counts the bytes up to the
/// slash and then as many characters, so where characters of several bytes
/// stand before the slash it reads a character further behind. A locator
/// without that character, or with one that stands for no type, is a menu.
pub open spec fn type_in_text(url: Seq<char>) -> ItemType {
    if has_prefix(url, "telnet://"@) {
        ItemType::Telnet
    } else if has_prefix(url, "URL:"@) || has_prefix(url, "/URL:"@) {
        ItemType::HTML
    } else {
        let rest = without_leading_text(url, "gopher://"@);
        let slash = first_slash(rest, 0);
        let at = encode_utf8(rest.subrange(0, slash)).len() + 1;
        if slash < rest.len() && at < rest.len() {
            ItemType::of_char_or(rest[at as int], ItemType::Menu)
        } else {
            ItemType::Menu
        }
    }
}

/// The character of the item type that the client finds when it takes a
/// locator apart.
pub uninterp spec fn gopher_url_type(url: Seq<char>) -> char;

/// The lines that the client finds in a menu, each as the character of its
/// type, its text and its locator.
pub uninterp spec fn gopher_menu(url: Seq<char>, raw: Seq<char>) -> Seq<(char, Seq<char>, Seq<char>)>;

/// The lines of a menu as plain values.
pub open spec fn plain_lines(lines: Seq<(char, String, String)>) -> Seq<(char, Seq<char>, Seq<char>)> {
    Seq::new(lines.len(), |i: int| (lines[i].0, lines[i].1@, lines[i].2@))
}

/// `c` is an ASCII character.
pub open spec fn is_ascii_char(c: char) -> bool {
    (c as u32) < 0x80
}

/// A line of `raw` begins at position `i`.
pub open spec fn starts_line(raw: Seq<char>, i: int) -> bool {
    i == 0 || raw[i - 1] == '\n'
}

/// Every line of `raw` begins with an ASCII character.
pub open spec fn lines_begin_ascii(raw: Seq<char>) -> bool {
    forall|i: int| 0 <= i < raw.len() && #[trigger] starts_line(raw, i) ==> is_ascii_char(raw[i])
}

/// A menu that the client can split: it is empty or ends with a line feed,
/// and every line begins with an ASCII character.
pub open spec fn menu_readable(raw: Seq<char>) -> bool {
    (raw.len() == 0 || raw.last() == '\n') && lines_begin_ascii(raw)
}

/// `raw` with a line feed at its end, where it is not empty and has none.
pub open spec fn with_final_newline(raw: Seq<char>) -> Seq<char> {
    if raw.len() > 0 && raw.last() != '\n' {
        raw.push('\n')
    } else {
        raw
    }
}

/// The menu lines that the plain values stand for. A type character that
/// stands for no item type is read as a binary file.
pub open spec fn menu_of(found: Seq<(char, Seq<char>, Seq<char>)>) -> Seq<MenuLineView> {
    Seq::new(
        found.len(),
        |i: int|
            MenuLineView {
                typ: ItemType::of_char_or(found[i].0, ItemType::Binary),
                text: found[i].1,
                url: found[i].2,
            },
    )
}

/// The views of menu lines.
pub open spec fn line_views(lines: Seq<MenuLine>) -> Seq<MenuLineView> {
    Seq::new(lines.len(), |i: int| lines[i]@)
}

/// `needle` stands in `bytes` at position `at`.
pub open spec fn bytes_at(bytes: Seq<u8>, needle: Seq<u8>, at: int) -> bool {
    0 <= at && at + needle.len() <= bytes.len() && bytes.subrange(at, at + needle.len())
        == needle
}

/// `needle` stands somewhere in `bytes`.
pub open spec fn holds(bytes: Seq<u8>, needle: Seq<u8>) -> bool {
    exists|at: int| bytes_at(bytes, needle, at)
}

/// `bytes` without every leading repetition of `prefix`.
pub open spec fn without_leading(bytes: Seq<u8>, prefix: Seq<u8>) -> Seq<u8>
    decreases bytes.len(),
{
    if prefix.len() > 0 && bytes_at(bytes, prefix, 0) {
        without_leading(bytes.subrange(prefix.len() as int, bytes.len() as int), prefix)
    } else {
        bytes
    }
}

/// Where the byte `wanted` first stands in `bytes` at or after `from`, or
/// the length of `bytes` where it does not.
pub open spec fn position_of(bytes: Seq<u8>, wanted: u8, from: int) -> int
    decreases bytes.len() - from,
{
    if from < 0 || from >= bytes.len() {
        bytes.len() as int
    } else if bytes[from] == wanted {
        from
    } else {
        position_of(bytes, wanted, from + 1)
    }
}

/// The locator as the client looks at it: without its leading `gopher://`.
pub open spec fn client_locator(url: Seq<u8>) -> Seq<u8> {
    without_leading(url, encode_utf8("gopher://"@))
}

/// Whether the client looks for a host in the locator: the locator holds a
/// colon or a slash, and names telnet or no scheme at all.
pub open spec fn client_seeks_host(url: Seq<u8>) -> bool {
    let plain = client_locator(url);
    &&& position_of(plain, 0x3a, 0) < plain.len() || position_of(plain, 0x2f, 0) < plain.len()
    &&& bytes_at(plain, encode_utf8("telnet://"@), 0) || !holds(plain, encode_utf8("://"@))
}

/// The host as the client first cuts it: what stands before the first slash
/// of the locator, any `telnet://` passed over.
pub open spec fn client_host(url: Seq<u8>) -> Seq<u8> {
    let plain = client_locator(url);
    let rest = if bytes_at(plain, encode_utf8("telnet://"@), 0) {
        without_leading(plain, encode_utf8("telnet://"@))
    } else {
        plain
    };
    rest.subrange(0, position_of(rest, 0x2f, 0))
}

/// Whether the client stops on the locator with these bytes. It does where
/// the host holds `[` and, behind it, `]`, and the client cuts the host from
/// the byte behind `[` up to as many bytes into the host as lie between the
/// two, plus one: that end lies before the start, or inside a character.
pub open spec fn client_stops(url: Seq<u8>) -> bool {
    let host = client_host(url);
    let open = position_of(host, 0x5b, 0);
    let close = position_of(host, 0x5d, open + 1);
    &&& client_seeks_host(url)
    &&& open < host.len()
    &&& close < host.len()
    &&& (close - open - 1 < open || 0x80 <= host[close - open] < 0xc0)
}

/// `phetch::gopher::type_for_url`: the item type that the client reads
/// from the text of a locator, handed on as its character.
#[verifier::external_body]
fn type_code_for_url(url: &str) -> (code: char)
    ensures
        code == type_in_text(url@).code(),
{
    phetch::gopher::type_for_url(url).to_char()
}

/// `phetch::gopher::parse_url`: the item type that the client finds when it
/// takes a locator apart, handed on as its character. The client stops where
/// it cuts the host out of its brackets at the wrong place, so no locator
/// on which it does is handed to it.
#[verifier::external_body]
fn url_type_code(url: &str) -> (code: char)
    requires
        !client_stops(encode_utf8(url@)),
    ensures
        code == gopher_url_type(url@),
{
    phetch::gopher::parse_url(url).typ.to_char()
}

/// `phetch::menu::parse`: the lines that the client finds in a menu, each
/// handed on as the character of its type, its text and its locator. The
/// client stops on a last line without a line feed and on a line that begins
/// with a character of several bytes, so no such menu is handed to it.
#[verifier::external_body]
fn menu_lines(url: &str, raw: &str) -> (lines: Vec<(char, String, String)>)
    requires
        menu_readable(raw@),
    ensures
        plain_lines(lines@) == gopher_menu(url@, raw@),
{
    let menu = phetch::menu::parse(url, raw.to_string(), phetch::config::SharedConfig::default());
    menu.lines().map(|line| (line.typ.to_char(), line.text().to_string(), line.url())).collect()
}

/// The item type of a locator, as the client reads it from the locator's
/// text.
pub fn type_for_url(url: &str) -> (t: ItemType)
    ensures
        t == type_in_text(url@),
{
    let code = type_code_for_url(url);
    proof {
        lemma_code_names_its_type(type_in_text(url@));
    }
    match ItemType::from_char(code) {
        Some(t) => t,
        None => ItemType::Menu,
    }
}

/// The character of an item type stands for that type and no other.
pub proof fn lemma_code_names_its_type(t: ItemType)
    ensures
        ItemType::of_char(t.code()) == Some(t),
{
}

/// The item type that a locator asks for: the one that the client finds
/// when it takes the locator apart, and, where the client would stop on the
/// locator, the one that it reads from the locator's text.
pub open spec fn requested_type(url: Seq<char>) -> ItemType {
    if client_stops(encode_utf8(url)) {
        type_in_text(url)
    } else {
        ItemType::of_char_or(gopher_url_type(url), ItemType::Menu)
    }
}

/// Whether `needle` stands in `bytes` at position `at`.
pub fn bytes_match_at(bytes: &[u8], needle: &[u8], at: usize) -> (found: bool)
    ensures
        found == bytes_at(bytes@, needle@, at as int),
{
    if needle.len() > bytes.len() || at > bytes.len() - needle.len() {
        return false;
    }
    let mut i: usize = 0;
    while i < needle.len()
        invariant
            i <= needle.len(),
            at + needle.len() <= bytes.len(),
            bytes@.subrange(at as int, at + i) == needle@.subrange(0, i as int),
        decreases needle.len() - i,
    {
        if bytes[at + i] != needle[i] {
            proof {
                let window = bytes@.subrange(at as int, at + needle.len());
                assert(window[i as int] != needle@[i as int]);
            }
            return false;
        }
        proof {
            assert(bytes@.subrange(at as int, at + i + 1) =~= bytes@.subrange(
                at as int,
                at + i,
            ).push(bytes@[at + i]));
            assert(needle@.subrange(0, i + 1) =~= needle@.subrange(0, i as int).push(
                needle@[i as int],
            ));
        }
        i += 1;
    }
    assert(needle@.subrange(0, needle.len() as int) =~= needle@);
    true
}

/// Where `bytes` begins once every leading repetition of `prefix` is
/// passed over.
pub fn skip_leading(bytes: &[u8], prefix: &[u8]) -> (start: usize)
    ensures
        start <= bytes.len(),
        without_leading(bytes@, prefix@) == bytes@.subrange(start as int, bytes.len() as int),
{
    let mut start: usize = 0;
    assert(bytes@.subrange(0, bytes.len() as int) =~= bytes@);
    if prefix.len() > 0 {
        while bytes_match_at(bytes, prefix, start)
            invariant
                start <= bytes.len(),
                prefix.len() > 0,
                without_leading(bytes@, prefix@) == without_leading(
                    bytes@.subrange(start as int, bytes.len() as int),
                    prefix@,
                ),
            decreases bytes.len() - start,
        {
            proof {
                let tail = bytes@.subrange(start as int, bytes.len() as int);
                assert(tail.subrange(0, prefix.len() as int) =~= bytes@.subrange(
                    start as int,
                    start + prefix.len(),
                ));
                assert(tail.subrange(prefix.len() as int, tail.len() as int) =~= bytes@.subrange(
                    start + prefix.len(),
                    bytes.len() as int,
                ));
            }
            start += prefix.len();
        }
        proof {
            let tail = bytes@.subrange(start as int, bytes.len() as int);
            if prefix.len() <= tail.len() {
                assert(tail.subrange(0, prefix.len() as int) =~= bytes@.subrange(
                    start as int,
                    start + prefix.len(),
                ));
            }
        }
    }
    start
}

/// Where the byte `wanted` first stands in `bytes` at or after `from`, or
/// the length of `bytes` where it does not.
pub fn position(bytes: &[u8], wanted: u8, from: usize) -> (at: usize)
    ensures
        at == position_of(bytes@, wanted, from as int),
        at <= bytes.len(),
        from <= at || at == bytes.len(),
{
    let mut i: usize = from;
    while i < bytes.len() && bytes[i] != wanted
        invariant
            from <= i,
            position_of(bytes@, wanted, from as int) == position_of(bytes@, wanted, i as int),
        decreases bytes.len() - i,
    {
        i += 1;
    }
    if i > bytes.len() {
        bytes.len()
    } else {
        i
    }
}

/// Whether `needle` stands somewhere in `bytes`.
pub fn holds_bytes(bytes: &[u8], needle: &[u8]) -> (found: bool)
    ensures
        found == holds(bytes@, needle@),
{
    if needle.len() > bytes.len() {
        return false;
    }
    let last: usize = bytes.len() - needle.len();
    let mut i: usize = 0;
    loop
        invariant
            i <= last,
            last + needle.len() == bytes.len(),
            forall|j: int| 0 <= j < i ==> !bytes_at(bytes@, needle@, j),
        decreases last - i,
    {
        if bytes_match_at(bytes, needle, i) {
            return true;
        }
        if i == last {
            return false;
        }
        i += 1;
    }
}

/// The bytes of `bytes` from `start` up to, not including, `end`.
fn part_of(bytes: &[u8], start: usize, end: usize) -> (part: Vec<u8>)
    requires
        start <= end <= bytes.len(),
    ensures
        part@ == bytes@.subrange(start as int, end as int),
{
    let mut part: Vec<u8> = Vec::new();
    let mut i: usize = start;
    while i < end
        invariant
            start <= i <= end <= bytes.len(),
            part@ == bytes@.subrange(start as int, i as int),
        decreases end - i,
    {
        part.push(bytes[i]);
        i += 1;
    }
    part
}

/// Whether the client would stop on the locator with these bytes.
pub fn stops_client(url: &[u8]) -> (stops: bool)
    ensures
        stops == client_stops(url@),
{
    let gopher = "gopher://".as_bytes();
    let telnet = "telnet://".as_bytes();
    let start = skip_leading(url, gopher);
    let plain = part_of(url, start, url.len());
    let named = position(plain.as_slice(), 0x3a, 0) < plain.len() || position(
        plain.as_slice(),
        0x2f,
        0,
    ) < plain.len();
    let is_telnet = bytes_match_at(plain.as_slice(), telnet, 0);
    if !named || (!is_telnet && holds_bytes(plain.as_slice(), "://".as_bytes())) {
        return false;
    }
    let start = if is_telnet {
        skip_leading(plain.as_slice(), telnet)
    } else {
        assert(plain@.subrange(0, plain.len() as int) =~= plain@);
        0
    };
    let rest = part_of(plain.as_slice(), start, plain.len());
    let slash = position(rest.as_slice(), 0x2f, 0);
    let host = part_of(rest.as_slice(), 0, slash);
    let open = position(host.as_slice(), 0x5b, 0);
    if open >= host.len() {
        return false;
    }
    let close = position(host.as_slice(), 0x5d, open + 1);
    if close >= host.len() {
        return false;
    }
    let cut = host[close - open];
    close - open - 1 < open || (0x80 <= cut && cut < 0xc0)
}

/// The item type that a locator asks for, found by taking the locator
/// apart. A locator on which the client would stop is not taken apart: its
/// type is read from its text.
pub fn url_type(url: &str) -> (t: ItemType)
    ensures
        t == requested_type(url@),
{
    if stops_client(url.as_bytes()) {
        type_for_url(url)
    } else {
        match ItemType::from_char(url_type_code(url)) {
            Some(t) => t,
            None => ItemType::Menu,
        }
    }
}

/// Whether every line of `raw` begins with an ASCII character.
pub fn begins_lines_with_ascii(raw: &[char]) -> (yes: bool)
    ensures
        yes == lines_begin_ascii(raw@),
{
    let mut i: usize = 0;
    while i < raw.len()
        invariant
            i <= raw.len(),
            forall|j: int| 0 <= j < i && #[trigger] starts_line(raw@, j) ==> is_ascii_char(raw@[j]),
        decreases raw.len() - i,
    {
        if (i == 0 || raw[i - 1] == '\n') && (raw[i] as u32) >= 0x80 {
            assert(starts_line(raw@, i as int));
            return false;
        }
        i += 1;
    }
    true
}

/// The menu lines that plain values stand for.
pub fn lines_from(found: Vec<(char, String, String)>) -> (lines: Vec<MenuLine>)
    ensures
        line_views(lines@) == menu_of(plain_lines(found@)),
{
    let ghost plain = plain_lines(found@);
    let mut lines: Vec<MenuLine> = Vec::new();
    let n = found.len();
    let mut i: usize = 0;
    while i < n
        invariant
            i <= n,
            n == found.len(),
            plain == plain_lines(found@),
            lines.len() == i,
            forall|j: int| 0 <= j < i ==> (#[trigger] lines@[j])@ == menu_of(plain)[j],
        decreases n - i,
    {
        let code = found[i].0;
        let text = found[i].1.clone();
        let url = found[i].2.clone();
        let typ = match ItemType::from_char(code) {
            Some(t) => t,
            None => ItemType::Binary,
        };
        lines.push(MenuLine { typ, text, url });
        i += 1;
    }
    assert(line_views(lines@) =~= menu_of(plain));
    lines
}

/// Splits a menu into its lines. A menu in which some line begins with a
/// character outside ASCII is not split.
pub fn parse_menu(url: &str, raw: &str) -> (menu: Option<Vec<MenuLine>>)
    ensures
        match menu {
            Some(lines) => lines_begin_ascii(raw@) && line_views(lines@) == menu_of(
                gopher_menu(url@, with_final_newline(raw@)),
            ),
            None => !lines_begin_ascii(raw@),
        },
{
    let mut chars = chars_of(raw);
    if !begins_lines_with_ascii(chars.as_slice()) {
        return None;
    }
    let n = chars.len();
    if n > 0 && chars[n - 1] != '\n' {
        chars.push('\n');
    }
    let whole = string_of(chars.as_slice());
    assert(lines_begin_ascii(whole@)) by {
        assert forall|i: int| 0 <= i < whole@.len() && #[trigger] starts_line(whole@, i) implies is_ascii_char(
            whole@[i],
        ) by {
            if i < raw@.len() {
                assert(starts_line(raw@, i));
            }
        }
    }
    Some(lines_from(menu_lines(url, whole.as_str())))
}

} // verus!
