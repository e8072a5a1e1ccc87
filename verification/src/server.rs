//! The gateway: from a browser's request to the page that answers it.

use crate::autolink::{auto_link, linked};
use crate::gopher::{
    gopher_menu, line_views, lines_begin_ascii, menu_of, parse_menu, requested_type,
    type_for_url, type_in_text, url_type, with_final_newline, ItemType, MenuLine, MenuLineView,
};
use crate::request::{content_type_of, path_of_line, Request};
use crate::strip_ansi_escapes::{clean_text, filtered, kept_in_order, strip};
use crate::text::{
    append, append_str, chars_of, contains_char, decimal, decimal_digits, replace, replaced,
    string_of, strip_prefix, text_of_bytes, trim_end_matches, trimmed_end, without_prefix,
};
use vstd::prelude::*;
use vstd::string::*;
use vstd::utf8::{
    decode_utf8, decode_utf8_encode_utf8, encode_utf8, encode_utf8_decode_utf8,
    encode_utf8_valid_utf8, valid_utf8,
};

verus! {

/// One embedded file: its name and what it holds.
pub struct AssetFile {
    pub name: String,
    pub bytes: Vec<u8>,
}

/// The embedded files that the gateway serves as they are, among them
/// the page layout. Built once and only read afterwards.
pub struct Asset {
    files: Vec<AssetFile>,
}

/// The first file at or after position `from` that has the given name.
pub open spec fn file_from(files: Seq<(Seq<char>, Seq<u8>)>, name: Seq<char>, from: int) -> Option<
    int,
>
    decreases files.len() - from,
{
    if from < 0 || from >= files.len() {
        None
    } else if files[from].0 == name {
        Some(from)
    } else {
        file_from(files, name, from + 1)
    }
}

/// Why an embedded file could not be read as text.
#[derive(Clone, Copy, Debug, PartialEq, Eq, Structural)]
pub enum AssetError {
    /// No file has that name.
    NotFound,
    /// The file is not valid UTF-8.
    InvalidText,
}

impl View for Asset {
    type V = Seq<(Seq<char>, Seq<u8>)>;

    closed spec fn view(&self) -> Seq<(Seq<char>, Seq<u8>)> {
        Seq::new(self.files@.len(), |i: int| (self.files@[i].name@, self.files@[i].bytes@))
    }
}

impl Asset {
    /// What the first file named `name` holds.
    pub open spec fn lookup(&self, name: Seq<char>) -> Option<Seq<u8>> {
        match file_from(self@, name, 0) {
            Some(i) => Some(self@[i].1),
            None => None,
        }
    }

    /// The table of the given files.
    pub fn new(files: Vec<AssetFile>) -> (assets: Asset)
        ensures
            assets@ == Seq::new(files@.len(), |i: int| (files@[i].name@, files@[i].bytes@)),
    {
        Asset { files }
    }

    /// What the first file named `name` holds, if there is one.
    pub fn get(&self, name: &str) -> (bytes: Option<&Vec<u8>>)
        ensures
            match bytes {
                Some(b) => self.lookup(name@) == Some(b@),
                None => self.lookup(name@) is None,
            },
    {
        let wanted = name.to_owned();
        let mut i: usize = 0;
        while i < self.files.len()
            invariant
                i <= self.files.len(),
                wanted@ == name@,
                file_from(self@, name@, 0) == file_from(self@, name@, i as int),
            decreases self.files.len() - i,
        {
            if self.files[i].name == wanted {
                return Some(&self.files[i].bytes);
            }
            i += 1;
        }
        None
    }
}

/// The text of an embedded file.
pub open spec fn asset_text(assets: Asset, filename: Seq<char>) -> Result<Seq<char>, AssetError> {
    match assets.lookup(filename) {
        Some(bytes) => if valid_utf8(bytes) {
            Ok(decode_utf8(bytes))
        } else {
            Err(AssetError::InvalidText)
        },
        None => Err(AssetError::NotFound),
    }
}

/// Reads an embedded file as text.
pub fn asset(assets: &Asset, filename: &str) -> (text: Result<String, AssetError>)
    ensures
        match text {
            Ok(s) => asset_text(*assets, filename@) == Ok::<Seq<char>, AssetError>(s@),
            Err(e) => asset_text(*assets, filename@) == Err::<Seq<char>, AssetError>(e),
        },
{
    match assets.get(filename) {
        Some(bytes) => match text_of_bytes(bytes.clone()) {
            Some(s) => Ok(s),
            None => Err(AssetError::InvalidText),
        },
        None => Err(AssetError::NotFound),
    }
}

/// How many connections are served at once. Few, since the gateway is
/// meant to run on the machine of the one who browses.
pub const MAX_WORKERS: usize = 10;

/// How many bytes of a request are read, in one read: what lies beyond is
/// never looked at.
pub const MAX_REQUEST_BYTES: usize = 512;

/// The locator that searches for `query`.
pub open spec fn search_locator(query: Seq<char>) -> Seq<char> {
    "gopher.floodgap.com/7/v2/vs?"@ + query
}

/// Whether what was typed is words to search for: it holds a space and no
/// slash, or neither a dot nor a slash.
pub open spec fn is_search_query(input: Seq<char>) -> bool {
    (input.contains(' ') && !input.contains('/')) || (!input.contains('.') && !input.contains(
        '/',
    ))
}

/// The Gopher locator that stands for what was typed.
pub open spec fn locator_of(input: Seq<char>) -> Seq<char> {
    if is_search_query(input) {
        search_locator(input)
    } else {
        without_prefix(replaced(input, "%20"@, " "@), "gopher://"@)
    }
}

/// What is shown of a Gopher response: the text that is left once its
/// escape sequences are stripped.
pub open spec fn filtered_text(input: Seq<char>) -> Seq<char> {
    decode_utf8(filtered(encode_utf8(input)))
}

/// What stands for a character in HTML.
pub open spec fn html_entity(c: char) -> Seq<char> {
    if c == '"' {
        "&quot;"@
    } else if c == '&' {
        "&amp;"@
    } else if c == '\'' {
        "&#x27;"@
    } else if c == '<' {
        "&lt;"@
    } else if c == '>' {
        "&gt;"@
    } else {
        seq![c]
    }
}

/// `s` with the characters that HTML gives a meaning replaced by their
/// entities.
pub open spec fn html_escaped(s: Seq<char>) -> Seq<char>
    decreases s.len(),
{
    if s.len() == 0 {
        Seq::empty()
    } else {
        html_escaped(s.drop_last()) + html_entity(s.last())
    }
}

/// `html` with its links to Gopher locators turned into links into the
/// gateway.
pub open spec fn relinked(html: Seq<char>) -> Seq<char> {
    replaced(html, "href=\"gopher://"@, "href=\"/"@)
}

/// The form that stands for a search line.
pub open spec fn search_html(line: MenuLineView) -> Seq<char> {
    "<form class='search' action='"@ + line.url
        + "'><input width='100%' type='text' placeholder='"@ + line.text + "'></form>"@
}

/// Whether a line of this type is wrapped in a link.
pub open spec fn is_linked(typ: ItemType) -> bool {
    typ != ItemType::Info && typ != ItemType::Search
}

/// The opening of the link around a menu line: to the target itself for a
/// web page, into the gateway for every other line that is linked.
pub open spec fn link_open(line: MenuLineView) -> Seq<char> {
    if line.typ == ItemType::HTML {
        "<a href='"@ + line.url + "'>"@
    } else if is_linked(line.typ) {
        "<a href='/"@ + line.url + "'>"@
    } else {
        Seq::empty()
    }
}

/// What a menu line shows: a space that does not collapse for an empty
/// text, a form for a search, and the escaped text otherwise.
pub open spec fn line_body(line: MenuLineView) -> Seq<char> {
    if line.text.len() == 0 {
        "&nbsp;"@
    } else if line.typ == ItemType::Search {
        search_html(line)
    } else {
        html_escaped(line.text)
    }
}

/// The end of the link around a menu line.
pub open spec fn link_close(line: MenuLineView) -> Seq<char> {
    if is_linked(line.typ) {
        "</a>"@
    } else {
        Seq::empty()
    }
}

/// The element that stands for one menu line.
pub open spec fn line_html(line: MenuLineView) -> Seq<char> {
    "<div class='line "@ + line.typ.label() + "'>"@ + link_open(line) + line_body(line)
        + link_close(line) + "</div>"@
}

/// The elements of the lines of a menu, in the menu's order.
pub open spec fn menu_html(lines: Seq<MenuLineView>) -> Seq<char>
    decreases lines.len(),
{
    if lines.len() == 0 {
        Seq::empty()
    } else {
        menu_html(lines.drop_last()) + line_html(lines.last())
    }
}

/// The element that shows a text document: the text without its trailing
/// end marker, escaped, with its URLs as links.
pub open spec fn text_html(gopher: Seq<char>) -> Seq<char> {
    "<div class='text'>"@ + relinked(linked(html_escaped(trimmed_end(gopher, ".\r\n"@))))
        + "</div>"@
}

/// The page for a response that is read as a menu. A response in which a
/// line begins outside ASCII is no menu and is shown as text.
pub open spec fn menu_page(url: Seq<char>, gopher: Seq<char>) -> Seq<char> {
    if lines_begin_ascii(gopher) {
        menu_html(menu_of(gopher_menu(url, with_final_newline(gopher))))
    } else {
        text_html(gopher)
    }
}

/// Whether the client reads a text document from the locator.
pub open spec fn is_text_url(url: Seq<char>) -> bool {
    type_in_text(url) == ItemType::Text || type_in_text(url) == ItemType::Xml
}

/// The HTML for a Gopher response, by the type of the locator it came from.
pub open spec fn html_of(url: Seq<char>, gopher: Seq<char>) -> Seq<char> {
    if is_text_url(url) {
        text_html(gopher)
    } else {
        menu_page(url, gopher)
    }
}

/// The layout with its places for content, locator and title filled.
pub open spec fn page_of(layout: Seq<char>, content: Seq<char>, url: Seq<char>) -> Seq<char> {
    replaced(
        replaced(replaced(layout, "{{content}}"@, content), "{{url}}"@, url),
        "{{title}}"@,
        "phroxy"@,
    )
}

/// The HTTP response that carries a page: the status line, the two headers,
/// an empty line, and the page, whose length in bytes the second header
/// gives.
pub open spec fn http_response(status: Seq<char>, page: Seq<char>) -> Seq<char> {
    "HTTP/1.1 "@ + status + "\r\nContent-Type: text/html; charset=utf-8\r\nContent-Length: "@
        + decimal_digits(encode_utf8(page).len()) + "\r\n\r\n"@ + page
}

/// The HTTP response for a Gopher response: the filled layout under the
/// given status, or a failure of the gateway where the layout cannot be had.
pub open spec fn rendered(assets: Asset, path: Seq<char>, status: Seq<char>, content: Seq<char>) -> Seq<
    char,
> {
    match asset_text(assets, "layout.html"@) {
        Ok(layout) => http_response(
            status,
            page_of(layout, html_of(path, content), without_prefix(path, "gopher://"@)),
        ),
        Err(_) => http_response("500 Internal Server Error"@, "layout.html not found"@),
    }
}

/// Where the first line feed at or after `from` stands, or the length of
/// `buf` where there is none.
pub open spec fn line_end(buf: Seq<u8>, from: int) -> int
    decreases buf.len() - from,
{
    if from < 0 || from >= buf.len() {
        buf.len() as int
    } else if buf[from] == 0x0a {
        from
    } else {
        line_end(buf, from + 1)
    }
}

/// The bytes of the first line of `buf`, without the line feed that ends
/// it and the carriage return before that.
pub open spec fn first_line_bytes(buf: Seq<u8>) -> Seq<u8> {
    let end = line_end(buf, 0);
    if 0 < end < buf.len() && buf[end - 1] == 0x0d {
        buf.subrange(0, end - 1)
    } else {
        buf.subrange(0, end)
    }
}

/// The first line of what was read, where something was read and the line
/// is valid UTF-8.
pub open spec fn first_line_of(buf: Seq<u8>) -> Option<Seq<char>> {
    if buf.len() > 0 && valid_utf8(first_line_bytes(buf)) {
        Some(decode_utf8(first_line_bytes(buf)))
    } else {
        None
    }
}

/// The HTTP response that serves an embedded file. A file that is not
/// there gives an empty answer.
pub open spec fn static_response(assets: Asset, path: Seq<char>) -> Seq<u8> {
    match assets.lookup(path) {
        Some(bytes) => encode_utf8(
            "HTTP/1.1 200 OK\r\ncontent-type: "@ + content_type_of(path, true)
                + "\r\ncontent-length: "@ + decimal_digits(bytes.len()) + "\r\n\r\n"@,
        ) + bytes,
        None => encode_utf8("HTTP/1.1 200 OK\r\n\r\n"@),
    }
}

/// Whether the gateway fetches items of this type.
pub open spec fn is_served(typ: ItemType) -> bool {
    typ == ItemType::Info || typ == ItemType::Menu || typ == ItemType::Text
}

/// The notice shown for an item type that the gateway does not fetch.
pub open spec fn unsupported_notice(typ: ItemType) -> Seq<char> {
    "3Can't serve files of type "@ + typ.label()
}

/// The path that a request line asks for, or the default where it asks for
/// none.
pub open spec fn requested_path(line: Seq<char>, default_url: Seq<char>) -> Seq<char> {
    if path_of_line(line).len() == 0 {
        default_url
    } else {
        path_of_line(line)
    }
}

/// What the gateway does next for a connection.
pub enum Step {
    /// No request line was read: nothing is answered.
    Silent,
    /// The answer is ready to be written.
    Send(Vec<u8>),
    /// The Gopher resource at `locator` is to be fetched for `request`.
    Fetch { request: Request, locator: String },
}

/// A step as a plain value.
pub enum StepView {
    Silent,
    Send(Seq<u8>),
    Fetch { addr: Seq<char>, path: Seq<char>, locator: Seq<char> },
}

impl View for Step {
    type V = StepView;

    open spec fn view(&self) -> StepView {
        match self {
            Step::Silent => StepView::Silent,
            Step::Send(bytes) => StepView::Send(bytes@),
            Step::Fetch { request, locator } => StepView::Fetch {
                addr: request.addr@,
                path: request.path@,
                locator: locator@,
            },
        }
    }
}

/// The step for a request whose path is known: an embedded file is served
/// as it is, an item type that is not fetched gets its notice, and anything
/// else is to be fetched.
pub open spec fn step_for(assets: Asset, addr: Seq<char>, path: Seq<char>) -> StepView {
    if assets.lookup(path) is Some {
        StepView::Send(static_response(assets, path))
    } else if is_served(requested_type(path)) {
        StepView::Fetch { addr, path, locator: locator_of(path) }
    } else {
        StepView::Send(
            encode_utf8(rendered(assets, path, "200 OK"@, unsupported_notice(requested_type(path)))),
        )
    }
}

/// The step for what was read from a connection.
pub open spec fn first_step(
    assets: Asset,
    addr: Seq<char>,
    buf: Seq<u8>,
    default_url: Seq<char>,
) -> StepView {
    match first_line_of(buf) {
        Some(line) => step_for(assets, addr, requested_path(line, default_url)),
        None => StepView::Silent,
    }
}

/// The answer to a request once the Gopher client has come back: the page
/// for what it fetched, or a page that says why it could not.
pub open spec fn answer(assets: Asset, path: Seq<char>, fetched: Result<Seq<char>, Seq<char>>) -> Seq<
    u8,
> {
    match fetched {
        Ok(body) => encode_utf8(rendered(assets, path, "200 OK"@, filtered_text(body))),
        Err(why) => encode_utf8(rendered(assets, path, "404 Not Found"@, "3"@ + why)),
    }
}

/// `htmlescape::encode_minimal`: each of the characters `"`, `&`, `'`, `<`
/// and `>` is replaced by its entity, and every other character stays.
#[verifier::external_body]
fn encode_minimal(s: &str) -> (escaped: String)
    ensures
        escaped@ == html_escaped(s@),
{
    htmlescape::encode_minimal(s)
}

/// Given a search term, the Gopher locator that searches for it.
pub fn search_url(query: &str) -> (url: String)
    ensures
        url@ == search_locator(query@),
{
    let mut out = chars_of("gopher.floodgap.com/7/v2/vs?");
    append_str(&mut out, query);
    string_of(out.as_slice())
}

/// Turns what was typed into a Gopher locator: words become a search, and
/// anything else is a locator, read without its `gopher://` and with `%20`
/// as a space.
pub fn user_input_to_url(input: &str) -> (url: String)
    ensures
        url@ == locator_of(input@),
{
    let chars = chars_of(input);
    let slash = contains_char(chars.as_slice(), '/');
    if contains_char(chars.as_slice(), ' ') && !slash {
        search_url(input)
    } else if !contains_char(chars.as_slice(), '.') && !slash {
        search_url(input)
    } else {
        let escaped = chars_of("%20");
        let space = chars_of(" ");
        let scheme = chars_of("gopher://");
        let decoded = replace(chars.as_slice(), escaped.as_slice(), space.as_slice());
        let short = strip_prefix(decoded.as_slice(), scheme.as_slice());
        string_of(short.as_slice())
    }
}

/// Strips terminal escape sequences from a Gopher response. What comes back
/// is the text whose bytes are what stripping left of the response's bytes.
/// It is always clean text, and clean text comes back as it is: so filtering
/// what was filtered changes nothing. Characters of the response are
/// dropped, and nothing is added or moved.
pub fn filter_gopher_response(input: &str) -> (out: String)
    ensures
        out@ == filtered_text(input@),
        encode_utf8(out@) == filtered(encode_utf8(input@)),
        clean_text(out@),
        clean_text(input@) ==> out@ == input@,
        kept_in_order(out@, input@),
        encode_utf8(out@).len() <= encode_utf8(input@).len(),
{
    let bytes = input.as_bytes();
    proof {
        encode_utf8_valid_utf8(input@);
        encode_utf8_decode_utf8(input@);
    }
    let stripped = strip(bytes);
    proof {
        decode_utf8_encode_utf8(stripped@);
    }
    match text_of_bytes(stripped) {
        Some(text) => text,
        None => input.to_owned(),
    }
}

/// Turns the links to Gopher locators in `html` into links into the
/// gateway.
pub fn relink(html: &str) -> (out: String)
    ensures
        out@ == relinked(html@),
{
    let chars = chars_of(html);
    let from = chars_of("href=\"gopher://");
    let to = chars_of("href=\"/");
    let out = replace(chars.as_slice(), from.as_slice(), to.as_slice());
    string_of(out.as_slice())
}

/// Wraps the URLs in `input` in links; those to Gopher locators lead into
/// the gateway.
pub fn link_urls(input: &str) -> (out: String)
    ensures
        out@ == relinked(linked(input@)),
{
    let linked = auto_link(input);
    relink(linked.as_str())
}

/// The form that stands for a search line.
pub fn to_search_html(line: &MenuLine) -> (out: String)
    ensures
        out@ == search_html(line@),
{
    let mut out = chars_of("<form class='search' action='");
    append_str(&mut out, line.url.as_str());
    append_str(&mut out, "'><input width='100%' type='text' placeholder='");
    append_str(&mut out, line.text.as_str());
    append_str(&mut out, "'></form>");
    string_of(out.as_slice())
}

/// The opening of the link around a menu line.
fn link_open_of(line: &MenuLine) -> (out: Vec<char>)
    ensures
        out@ == link_open(line@),
{
    if line.typ.is_html() {
        let mut out = chars_of("<a href='");
        append_str(&mut out, line.url.as_str());
        append_str(&mut out, "'>");
        out
    } else if !line.typ.is_info() && !line.typ.is_search() {
        let mut out = chars_of("<a href='/");
        append_str(&mut out, line.url.as_str());
        append_str(&mut out, "'>");
        out
    } else {
        Vec::new()
    }
}

/// What a menu line shows.
fn line_body_of(line: &MenuLine) -> (out: Vec<char>)
    ensures
        out@ == line_body(line@),
{
    if line.text.as_str().is_empty() {
        chars_of("&nbsp;")
    } else if line.typ.is_search() {
        let form = to_search_html(line);
        chars_of(form.as_str())
    } else {
        let escaped = encode_minimal(line.text.as_str());
        chars_of(escaped.as_str())
    }
}

/// The element that stands for one menu line.
pub fn to_line_html(line: &MenuLine) -> (out: Vec<char>)
    ensures
        out@ == line_html(line@),
{
    let mut out = chars_of("<div class='line ");
    append_str(&mut out, line.typ.name());
    append_str(&mut out, "'>");
    let open = link_open_of(line);
    append(&mut out, open.as_slice());
    let body = line_body_of(line);
    append(&mut out, body.as_slice());
    if !line.typ.is_info() && !line.typ.is_search() {
        append_str(&mut out, "</a>");
    } else {
        assert(out@ + Seq::<char>::empty() =~= out@);
    }
    append_str(&mut out, "</div>");
    out
}

/// The HTML of a menu's lines: one element for each, in the menu's order.
pub fn render_menu(lines: &Vec<MenuLine>) -> (out: String)
    ensures
        out@ == menu_html(line_views(lines@)),
{
    let ghost views = line_views(lines@);
    let mut out: Vec<char> = Vec::new();
    let mut i: usize = 0;
    while i < lines.len()
        invariant
            i <= lines.len(),
            views == line_views(lines@),
            out@ == menu_html(views.subrange(0, i as int)),
        decreases lines.len() - i,
    {
        let line = to_line_html(&lines[i]);
        proof {
            let next = views.subrange(0, i + 1);
            assert(next.drop_last() =~= views.subrange(0, i as int));
            assert(next.last() == lines@[i as int]@);
        }
        append(&mut out, line.as_slice());
        i += 1;
    }
    assert(views.subrange(0, lines.len() as int) =~= views);
    string_of(out.as_slice())
}

/// Turns a Gopher text document into the element that shows it.
pub fn to_text_html(_url: &str, gopher: &str) -> (out: String)
    ensures
        out@ == text_html(gopher@),
{
    let chars = chars_of(gopher);
    let marker = chars_of(".\r\n");
    let trimmed = trim_end_matches(chars.as_slice(), marker.as_slice());
    let text = string_of(trimmed.as_slice());
    let escaped = encode_minimal(text.as_str());
    let linked = link_urls(escaped.as_str());
    let mut out = chars_of("<div class='text'>");
    append_str(&mut out, linked.as_str());
    append_str(&mut out, "</div>");
    string_of(out.as_slice())
}

/// Turns a Gopher response into a menu, with links and search fields.
pub fn to_menu_html(url: &str, gopher: &str) -> (out: String)
    ensures
        out@ == menu_page(url@, gopher@),
{
    match parse_menu(url, gopher) {
        Some(lines) => render_menu(&lines),
        None => to_text_html(url, gopher),
    }
}

/// Turns a Gopher response into HTML.
pub fn to_html(url: &str, gopher: &str) -> (out: String)
    ensures
        out@ == html_of(url@, gopher@),
{
    if type_for_url(url).is_text() {
        to_text_html(url, gopher)
    } else {
        to_menu_html(url, gopher)
    }
}

/// Frames a page as an HTTP response.
pub fn to_http_response(status: &str, page: &str) -> (out: String)
    ensures
        out@ == http_response(status@, page@),
{
    let mut out = chars_of("HTTP/1.1 ");
    append_str(&mut out, status);
    append_str(&mut out, "\r\nContent-Type: text/html; charset=utf-8\r\nContent-Length: ");
    let length = decimal(page.as_bytes().len());
    append(&mut out, length.as_slice());
    append_str(&mut out, "\r\n\r\n");
    append_str(&mut out, page);
    string_of(out.as_slice())
}

/// Fills the layout with the HTML for `content` and frames it as an HTTP
/// response under `status`.
pub fn render(assets: &Asset, req: &Request, status: &str, content: &str) -> (out: String)
    ensures
        out@ == rendered(*assets, req.path@, status@, content@),
{
    match asset(assets, "layout.html") {
        Ok(layout) => {
            let html = to_html(req.target_url(), content);
            let short = req.short_target_url();
            let layout = chars_of(layout.as_str());
            let html = chars_of(html.as_str());
            let short = chars_of(short.as_str());
            let content_mark = chars_of("{{content}}");
            let url_mark = chars_of("{{url}}");
            let title_mark = chars_of("{{title}}");
            let title = chars_of("phroxy");
            let page = replace(layout.as_slice(), content_mark.as_slice(), html.as_slice());
            let page = replace(page.as_slice(), url_mark.as_slice(), short.as_slice());
            let page = replace(page.as_slice(), title_mark.as_slice(), title.as_slice());
            let page = string_of(page.as_slice());
            to_http_response(status, page.as_str())
        },
        Err(_) => to_http_response("500 Internal Server Error", "layout.html not found"),
    }
}

/// The first line of what was read from a connection.
pub fn first_line(buffer: &[u8]) -> (line: Option<String>)
    ensures
        match line {
            Some(s) => first_line_of(buffer@) == Some(s@),
            None => first_line_of(buffer@) is None,
        },
{
    if buffer.len() == 0 {
        return None;
    }
    let mut end: usize = 0;
    while end < buffer.len() && buffer[end] != 0x0a
        invariant
            end <= buffer.len(),
            line_end(buffer@, 0) == line_end(buffer@, end as int),
        decreases buffer.len() - end,
    {
        end += 1;
    }
    let stop: usize = if 0 < end && end < buffer.len() && buffer[end - 1] == 0x0d {
        end - 1
    } else {
        end
    };
    let mut bytes: Vec<u8> = Vec::new();
    let mut i: usize = 0;
    while i < stop
        invariant
            i <= stop <= buffer.len(),
            bytes@ == buffer@.subrange(0, i as int),
        decreases stop - i,
    {
        bytes.push(buffer[i]);
        i += 1;
    }
    text_of_bytes(bytes)
}

/// The HTTP response that serves the embedded file that `req` asks for.
pub fn file_response(assets: &Asset, req: &Request) -> (out: Vec<u8>)
    ensures
        out@ == static_response(*assets, req.path@),
{
    match req.static_file_bytes(assets) {
        Some(bytes) => {
            let mut head = chars_of("HTTP/1.1 200 OK\r\ncontent-type: ");
            append_str(&mut head, req.content_type(assets));
            append_str(&mut head, "\r\ncontent-length: ");
            let length = decimal(bytes.len());
            append(&mut head, length.as_slice());
            append_str(&mut head, "\r\n\r\n");
            let head = string_of(head.as_slice());
            let mut out = head.as_str().as_bytes_vec();
            let mut i: usize = 0;
            let ghost start = out@;
            while i < bytes.len()
                invariant
                    i <= bytes.len(),
                    out@ == start + bytes@.subrange(0, i as int),
                decreases bytes.len() - i,
            {
                out.push(bytes[i]);
                i += 1;
            }
            assert(bytes@.subrange(0, bytes.len() as int) =~= bytes@);
            out
        },
        None => "HTTP/1.1 200 OK\r\n\r\n".as_bytes_vec(),
    }
}

/// The notice shown for an item type that the gateway does not fetch.
fn notice_for(typ: ItemType) -> (out: String)
    ensures
        out@ == unsupported_notice(typ),
{
    let mut out = chars_of("3Can't serve files of type ");
    append_str(&mut out, typ.name());
    string_of(out.as_slice())
}

/// Decides what to do for a request whose path is known.
pub fn route(assets: &Asset, req: Request) -> (step: Step)
    ensures
        step@ == step_for(*assets, req.addr@, req.path@),
{
    if req.is_static_file(assets) {
        return Step::Send(file_response(assets, &req));
    }
    let typ = url_type(req.path.as_str());
    match typ {
        ItemType::Info | ItemType::Menu | ItemType::Text => {
            let locator = user_input_to_url(req.path.as_str());
            Step::Fetch { request: req, locator }
        },
        _ => {
            let notice = notice_for(typ);
            let page = render(assets, &req, "200 OK", notice.as_str());
            Step::Send(page.as_str().as_bytes_vec())
        },
    }
}

/// Reads the request line from what a connection sent and decides what to
/// do. A line that asks for no path asks for `default_url`.
pub fn handle_request(assets: &Asset, addr: String, buffer: &[u8], default_url: &str) -> (step:
    Step)
    ensures
        step@ == first_step(*assets, addr@, buffer@, default_url@),
{
    match first_line(buffer) {
        Some(line) => {
            let mut req = Request::from(addr);
            req.parse(line.as_str());
            if req.path.as_str().is_empty() {
                req.path = default_url.to_owned();
            }
            route(assets, req)
        },
        None => Step::Silent,
    }
}

/// The answer to a request once the Gopher client has come back: the page
/// for what it fetched, under `200 OK`, or a page with the client's account
/// of its failure, under `404 Not Found`.
pub fn write_response(assets: &Asset, req: &Request, fetched: Result<String, String>) -> (out: Vec<
    u8,
>)
    ensures
        out@ == answer(
            *assets,
            req.path@,
            match fetched {
                Ok(body) => Ok(body@),
                Err(why) => Err(why@),
            },
        ),
{
    let page = match fetched {
        Ok(body) => {
            let content = filter_gopher_response(body.as_str());
            render(assets, req, "200 OK", content.as_str())
        },
        Err(why) => {
            let mut content = chars_of("3");
            append_str(&mut content, why.as_str());
            let content = string_of(content.as_slice());
            render(assets, req, "404 Not Found", content.as_str())
        },
    };
    page.as_str().as_bytes_vec()
}

} // verus!
