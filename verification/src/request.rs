//! What a browser asks for: the request line and the path in it.

use crate::server::Asset;
use crate::text::{
    append_str, chars_of, ends_with, has_prefix, has_suffix, same_text, slice_of, starts_with,
    string_of, strip_prefix, without_prefix,
};
use vstd::prelude::*;

verus! {

/// The path in a request line of the exact form `GET /<path> HTTP/1.1`: what
/// stands between the slash and the version. Any other line holds no path.
pub open spec fn path_of_line(line: Seq<char>) -> Seq<char> {
    if line.len() >= 14 && has_prefix(line, "GET "@) && has_suffix(line, " HTTP/1.1"@) {
        line.subrange(5, line.len() - 9)
    } else {
        Seq::empty()
    }
}

/// Where the extension of the file that `path` names begins, seen from
/// position `end` backwards: behind the last dot of the last segment, unless
/// that dot begins the segment.
pub open spec fn extension_start(path: Seq<char>, end: int) -> Option<int>
    decreases end,
{
    if end <= 0 || end > path.len() {
        None
    } else if path[end - 1] == '/' {
        None
    } else if path[end - 1] == '.' {
        if end == 1 || path[end - 2] == '/' {
            None
        } else {
            Some(end)
        }
    } else {
        extension_start(path, end - 1)
    }
}

/// The extension of the file that `path` names.
pub open spec fn extension(path: Seq<char>) -> Option<Seq<char>> {
    match extension_start(path, path.len() as int) {
        Some(start) => Some(path.subrange(start, path.len() as int)),
        None => None,
    }
}

/// The content type of a file with the given extension.
pub open spec fn media_type(ext: Seq<char>) -> Seq<char> {
    if ext == "jpg"@ || ext == "jpeg"@ {
        "image/jpeg"@
    } else if ext == "png"@ {
        "image/png"@
    } else if ext == "gif"@ {
        "image/gif"@
    } else if ext == "css"@ {
        "text/css"@
    } else if ext == "js"@ {
        "text/javascript"@
    } else if ext == "json"@ {
        "application/json"@
    } else if ext == "html"@ {
        "text/html"@
    } else {
        "text/plain"@
    }
}

/// The content type of what is served for `path`: for an embedded file that
/// of its extension, plain text where it has none, and for everything else
/// that of a page.
pub open spec fn content_type_of(path: Seq<char>, embedded: bool) -> Seq<char> {
    if embedded {
        match extension(path) {
            Some(ext) => media_type(ext),
            None => "text/plain"@,
        }
    } else {
        "text/html; charset=UTF-8"@
    }
}

/// Given a request line, the path that it asks for.
pub fn path_from_line(line: &str) -> (path: String)
    ensures
        path@ == path_of_line(line@),
{
    let chars = chars_of(line);
    let get = chars_of("GET ");
    let version = chars_of(" HTTP/1.1");
    if chars.len() >= 14 && starts_with(chars.as_slice(), get.as_slice()) && ends_with(
        chars.as_slice(),
        version.as_slice(),
    ) {
        let path = slice_of(chars.as_slice(), 5, chars.len() - 9);
        return string_of(path.as_slice());
    }
    String::new()
}

/// The extension of the file that `path` names, if it has one.
pub fn extension_of(path: &[char]) -> (ext: Option<Vec<char>>)
    ensures
        match ext {
            Some(e) => extension(path@) == Some(e@),
            None => extension(path@) is None,
        },
{
    let mut end: usize = path.len();
    while end > 0
        invariant
            end <= path.len(),
            extension_start(path@, path.len() as int) == extension_start(path@, end as int),
        decreases end,
    {
        let c = path[end - 1];
        if c == '/' {
            return None;
        }
        if c == '.' {
            if end == 1 || path[end - 2] == '/' {
                return None;
            }
            return Some(slice_of(path, end, path.len()));
        }
        end -= 1;
    }
    None
}

/// The content type of a file with the given extension.
pub fn media_type_of(ext: &[char]) -> (media: &'static str)
    ensures
        media@ == media_type(ext@),
{
    if same_text(ext, "jpg") || same_text(ext, "jpeg") {
        "image/jpeg"
    } else if same_text(ext, "png") {
        "image/png"
    } else if same_text(ext, "gif") {
        "image/gif"
    } else if same_text(ext, "css") {
        "text/css"
    } else if same_text(ext, "js") {
        "text/javascript"
    } else if same_text(ext, "json") {
        "application/json"
    } else if same_text(ext, "html") {
        "text/html"
    } else {
        "text/plain"
    }
}

/// One request of a browser: whom it reached and the path it asks for.
pub struct Request {
    /// The address that the gateway listens on.
    pub addr: String,
    /// The path asked for: the name of an embedded file, a Gopher locator or
    /// words to search for.
    pub path: String,
}

impl Request {
    /// A request that reached `addr` and asks for nothing yet.
    pub fn from(addr: String) -> (req: Request)
        ensures
            req.addr@ == addr@,
            req.path@ == Seq::<char>::empty(),
    {
        Request { addr, path: String::new() }
    }

    /// What the embedded file that this request asks for holds.
    pub fn static_file_bytes<'a>(&self, assets: &'a Asset) -> (bytes: Option<&'a Vec<u8>>)
        ensures
            match bytes {
                Some(b) => assets.lookup(self.path@) == Some(b@),
                None => assets.lookup(self.path@) is None,
            },
    {
        assets.get(self.path.as_str())
    }

    /// The content type of the answer to this request.
    pub fn content_type(&self, assets: &Asset) -> (media: &'static str)
        ensures
            media@ == content_type_of(self.path@, assets.lookup(self.path@) is Some),
    {
        if self.is_static_file(assets) {
            let path = chars_of(self.path.as_str());
            match extension_of(path.as_slice()) {
                Some(ext) => media_type_of(ext.as_slice()),
                None => "text/plain",
            }
        } else {
            "text/html; charset=UTF-8"
        }
    }

    /// Whether this request asks for an embedded file.
    pub fn is_static_file(&self, assets: &Asset) -> (embedded: bool)
        ensures
            embedded == assets.lookup(self.path@) is Some,
    {
        assets.get(self.path.as_str()).is_some()
    }

    /// Reads the request line and keeps the path in it.
    pub fn parse(&mut self, line: &str)
        ensures
            final(self).path@ == path_of_line(line@),
            final(self).addr@ == old(self).addr@,
    {
        self.path = path_from_line(line);
    }

    /// The Gopher locator that this request wraps.
    pub fn target_url(&self) -> (url: &str)
        ensures
            url@ == self.path@,
    {
        self.path.as_str()
    }

    /// The Gopher locator without its leading `gopher://`.
    pub fn short_target_url(&self) -> (url: String)
        ensures
            url@ == without_prefix(self.path@, "gopher://"@),
    {
        let path = chars_of(self.path.as_str());
        let scheme = chars_of("gopher://");
        let short = strip_prefix(path.as_slice(), scheme.as_slice());
        string_of(short.as_slice())
    }

    /// The address of this request on the gateway.
    pub fn url(&self) -> (url: String)
        ensures
            url@ == self.addr@ + "/"@ + self.path@,
    {
        let mut out = chars_of(self.addr.as_str());
        append_str(&mut out, "/");
        append_str(&mut out, self.path.as_str());
        string_of(out.as_slice())
    }
}

} // verus!
