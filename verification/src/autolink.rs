//! Bare URLs in text become links.

use vstd::prelude::*;

verus! {

#[verifier::external_type_specification]
#[verifier::external_body]
pub struct ExRegexError(regex::Error);

/// What counts as a URL: a scheme or `www.`, then everything up to white
/// space or a bracket, ending in a bracketed word, a slash, or a character
/// that is neither punctuation nor white space.
pub const URL_PATTERN: &'static str =
    r"\b(([\w-]+://?|www[.])[^\s()<>]+(?:\([\w\d]+\)|([^[:punct:]\s]|/)))";

/// What stands in place of a URL: a link to it that shows it.
pub const ANCHOR: &'static str = "<a href=\"$0\">$0</a>";

/// `text` with every match of the regular expression `pattern` replaced as
/// `replacement` says, or nothing where `pattern` is no regular expression.
pub uninterp spec fn regex_replace_all(
    pattern: Seq<char>,
    text: Seq<char>,
    replacement: Seq<char>,
) -> Option<Seq<char>>;

/// `text` with its URLs wrapped in links. Empty text stays empty.
pub open spec fn linked(text: Seq<char>) -> Seq<char> {
    if text.len() == 0 {
        text
    } else {
        linked_or_plain(text, regex_replace_all(URL_PATTERN@, text, ANCHOR@))
    }
}

/// What replacing gave, or the text as it was where it gave nothing.
pub open spec fn linked_or_plain(text: Seq<char>, replaced: Option<Seq<char>>) -> Seq<char> {
    match replaced {
        Some(s) => s,
        None => text,
    }
}

/// `regex::Regex::new`, then `regex::Regex::replace_all` on what it built:
/// every match of `pattern` in `text`, from the left and without overlap,
/// is replaced as `replacement` says. Fails where `pattern` is no regular
/// expression.
#[verifier::external_body]
fn replace_all(pattern: &str, text: &str, replacement: &str) -> (replaced: Result<
    String,
    regex::Error,
>)
    ensures
        match replaced {
            Ok(s) => regex_replace_all(pattern@, text@, replacement@) == Some(s@),
            Err(_) => regex_replace_all(pattern@, text@, replacement@) is None,
        },
{
    let re = regex::Regex::new(pattern)?;
    Ok(re.replace_all(text, replacement).into_owned())
}

/// The outcome of replacing, or `text` itself where the pattern was refused.
pub fn or_plain(text: &str, replaced: Result<String, regex::Error>) -> (out: String)
    ensures
        out@ == match replaced {
            Ok(s) => s@,
            Err(_) => text@,
        },
{
    match replaced {
        Ok(s) => s,
        Err(_) => text.to_owned(),
    }
}

/// Wraps the URLs in `text` in links.
pub fn auto_link(text: &str) -> (out: String)
    ensures
        out@ == linked(text@),
{
    if text.is_empty() {
        return String::new();
    }
    or_plain(text, replace_all(URL_PATTERN, text, ANCHOR))
}

} // verus!
