//! Text as sequences of characters: the searching, trimming and replacing
//! that the gateway's parsers and renderers are built from.

use vstd::prelude::*;
use vstd::utf8::{decode_utf8, valid_utf8};

verus! {

/// `needle` stands in `s` at position `at`.
pub open spec fn occurs_at(s: Seq<char>, needle: Seq<char>, at: int) -> bool {
    0 <= at && at + needle.len() <= s.len() && s.subrange(at, at + needle.len()) == needle
}

/// `s` begins with `prefix`.
pub open spec fn has_prefix(s: Seq<char>, prefix: Seq<char>) -> bool {
    occurs_at(s, prefix, 0)
}

/// `s` ends with `suffix`.
pub open spec fn has_suffix(s: Seq<char>, suffix: Seq<char>) -> bool {
    occurs_at(s, suffix, s.len() - suffix.len())
}

/// `s` without one leading `prefix`, or `s` itself where it does not begin
/// with it.
pub open spec fn without_prefix(s: Seq<char>, prefix: Seq<char>) -> Seq<char> {
    if has_prefix(s, prefix) {
        s.subrange(prefix.len() as int, s.len() as int)
    } else {
        s
    }
}

/// `s` with every trailing repetition of `suffix` removed.
pub open spec fn trimmed_end(s: Seq<char>, suffix: Seq<char>) -> Seq<char>
    decreases s.len(),
{
    if suffix.len() > 0 && has_suffix(s, suffix) {
        trimmed_end(s.subrange(0, s.len() - suffix.len()), suffix)
    } else {
        s
    }
}

/// `s` with each occurrence of `from` replaced by `to`, scanning from the
/// left and never looking again at what was replaced. An empty `from`
/// occurs nowhere.
pub open spec fn replaced(s: Seq<char>, from: Seq<char>, to: Seq<char>) -> Seq<char>
    decreases s.len(),
{
    if from.len() == 0 || s.len() < from.len() {
        s
    } else if has_prefix(s, from) {
        to + replaced(s.subrange(from.len() as int, s.len() as int), from, to)
    } else {
        seq![s[0]] + replaced(s.subrange(1, s.len() as int), from, to)
    }
}

/// The character of the decimal digit `d`.
pub open spec fn digit_char(d: int) -> char {
    if d == 0 {
        '0'
    } else if d == 1 {
        '1'
    } else if d == 2 {
        '2'
    } else if d == 3 {
        '3'
    } else if d == 4 {
        '4'
    } else if d == 5 {
        '5'
    } else if d == 6 {
        '6'
    } else if d == 7 {
        '7'
    } else if d == 8 {
        '8'
    } else {
        '9'
    }
}

/// `n` written in decimal, without leading zeros.
pub open spec fn decimal_digits(n: nat) -> Seq<char>
    decreases n,
{
    if n < 10 {
        seq![digit_char(n as int)]
    } else {
        decimal_digits(n / 10).push(digit_char((n % 10) as int))
    }
}

/// Appends one character to a `String`: `String::push`, which grows the
/// string by exactly that character.
#[verifier::external_body]
fn push_char(s: &mut String, c: char)
    ensures
        final(s)@ == old(s)@.push(c),
{
    s.push(c)
}

/// `String::from_utf8`: the text that the bytes encode, where they are
/// valid UTF-8, and nothing where they are not.
#[verifier::external_body]
pub(crate) fn text_of_bytes(bytes: Vec<u8>) -> (text: Option<String>)
    ensures
        text is Some <==> valid_utf8(bytes@),
        text matches Some(s) ==> s@ == decode_utf8(bytes@),
{
    String::from_utf8(bytes).ok()
}

/// Whether `s` holds exactly the characters of `other`.
pub fn same_text(s: &[char], other: &str) -> (same: bool)
    ensures
        same == (s@ == other@),
{
    let chars = chars_of(other);
    if s.len() != chars.len() {
        return false;
    }
    let found = matches_at(s, chars.as_slice(), 0);
    assert(s@.subrange(0, s.len() as int) =~= s@);
    found
}

/// The characters of a string, in order.
pub fn chars_of(s: &str) -> (v: Vec<char>)
    ensures
        v@ == s@,
{
    let mut v: Vec<char> = Vec::new();
    for c in it: s.chars()
        invariant
            it.seq() == s@,
            v@ == s@.subrange(0, it.index() as int),
    {
        v.push(c);
    }
    v
}

/// The string made of the given characters, in order.
pub fn string_of(v: &[char]) -> (s: String)
    ensures
        s@ == v@,
{
    let mut s = String::new();
    let mut i: usize = 0;
    while i < v.len()
        invariant
            i <= v.len(),
            s@ == v@.subrange(0, i as int),
        decreases v.len() - i,
    {
        push_char(&mut s, v[i]);
        i += 1;
    }
    assert(v@.subrange(0, v.len() as int) =~= v@);
    s
}

/// Appends the characters of `more` to `out`.
pub fn append(out: &mut Vec<char>, more: &[char])
    ensures
        final(out)@ == old(out)@ + more@,
{
    let mut i: usize = 0;
    while i < more.len()
        invariant
            i <= more.len(),
            out@ == old(out)@ + more@.subrange(0, i as int),
        decreases more.len() - i,
    {
        out.push(more[i]);
        i += 1;
    }
    assert(more@.subrange(0, more.len() as int) =~= more@);
}

/// Appends the characters of the string `more` to `out`.
pub fn append_str(out: &mut Vec<char>, more: &str)
    ensures
        final(out)@ == old(out)@ + more@,
{
    let chars = chars_of(more);
    append(out, chars.as_slice());
}

/// The characters of `s` from `start` up to, not including, `end`.
pub fn slice_of(s: &[char], start: usize, end: usize) -> (v: Vec<char>)
    requires
        start <= end <= s.len(),
    ensures
        v@ == s@.subrange(start as int, end as int),
{
    let mut v: Vec<char> = Vec::new();
    let mut i: usize = start;
    while i < end
        invariant
            start <= i <= end <= s.len(),
            v@ == s@.subrange(start as int, i as int),
        decreases end - i,
    {
        v.push(s[i]);
        i += 1;
    }
    v
}

/// Whether `needle` stands in `s` at position `at`.
pub fn matches_at(s: &[char], needle: &[char], at: usize) -> (found: bool)
    ensures
        found == occurs_at(s@, needle@, at as int),
{
    if needle.len() > s.len() || at > s.len() - needle.len() {
        return false;
    }
    let mut i: usize = 0;
    while i < needle.len()
        invariant
            i <= needle.len(),
            at + needle.len() <= s.len(),
            s@.subrange(at as int, at + i) == needle@.subrange(0, i as int),
        decreases needle.len() - i,
    {
        if s[at + i] != needle[i] {
            proof {
                let window = s@.subrange(at as int, at + needle.len());
                assert(window[i as int] != needle@[i as int]);
            }
            return false;
        }
        proof {
            assert(s@.subrange(at as int, at + i + 1) =~= s@.subrange(at as int, at + i).push(
                s@[at + i],
            ));
            assert(needle@.subrange(0, i + 1) =~= needle@.subrange(0, i as int).push(
                needle@[i as int],
            ));
        }
        i += 1;
    }
    assert(needle@.subrange(0, needle.len() as int) =~= needle@);
    true
}

/// Whether `s` begins with `prefix`.
pub fn starts_with(s: &[char], prefix: &[char]) -> (found: bool)
    ensures
        found == has_prefix(s@, prefix@),
{
    matches_at(s, prefix, 0)
}

/// Whether `s` ends with `suffix`.
pub fn ends_with(s: &[char], suffix: &[char]) -> (found: bool)
    ensures
        found == has_suffix(s@, suffix@),
{
    if suffix.len() > s.len() {
        return false;
    }
    matches_at(s, suffix, s.len() - suffix.len())
}

/// Whether the character `c` occurs in `s`.
pub fn contains_char(s: &[char], c: char) -> (found: bool)
    ensures
        found == s@.contains(c),
{
    let mut i: usize = 0;
    while i < s.len()
        invariant
            i <= s.len(),
            forall|j: int| 0 <= j < i ==> s@[j] != c,
        decreases s.len() - i,
    {
        if s[i] == c {
            return true;
        }
        i += 1;
    }
    false
}

/// `s` without one leading `prefix`.
pub fn strip_prefix(s: &[char], prefix: &[char]) -> (v: Vec<char>)
    ensures
        v@ == without_prefix(s@, prefix@),
{
    if starts_with(s, prefix) {
        slice_of(s, prefix.len(), s.len())
    } else {
        let v = slice_of(s, 0, s.len());
        assert(s@.subrange(0, s.len() as int) =~= s@);
        v
    }
}

/// `s` with every trailing repetition of `suffix` removed.
pub fn trim_end_matches(s: &[char], suffix: &[char]) -> (v: Vec<char>)
    ensures
        v@ == trimmed_end(s@, suffix@),
{
    let mut end: usize = s.len();
    assert(s@.subrange(0, end as int) =~= s@);
    if suffix.len() > 0 {
        while end >= suffix.len() && matches_at(s, suffix, end - suffix.len())
            invariant
                end <= s.len(),
                suffix.len() > 0,
                trimmed_end(s@, suffix@) == trimmed_end(s@.subrange(0, end as int), suffix@),
            decreases end,
        {
            proof {
                let head = s@.subrange(0, end as int);
                assert(head.subrange(end - suffix.len(), end as int) =~= s@.subrange(
                    end - suffix.len(),
                    end as int,
                ));
                assert(head.subrange(0, end - suffix.len()) =~= s@.subrange(
                    0,
                    end - suffix.len(),
                ));
            }
            end -= suffix.len();
        }
        proof {
            let head = s@.subrange(0, end as int);
            if end >= suffix.len() {
                assert(head.subrange(end - suffix.len(), end as int) =~= s@.subrange(
                    end - suffix.len(),
                    end as int,
                ));
            }
        }
    }
    slice_of(s, 0, end)
}

/// `s` with each occurrence of `from` replaced by `to`.
pub fn replace(s: &[char], from: &[char], to: &[char]) -> (v: Vec<char>)
    ensures
        v@ == replaced(s@, from@, to@),
{
    let mut out: Vec<char> = Vec::new();
    if from.len() == 0 {
        append(&mut out, s);
        assert(out@ =~= s@);
        return out;
    }
    let mut i: usize = 0;
    assert(s@.subrange(0, s.len() as int) =~= s@);
    while i < s.len()
        invariant
            i <= s.len(),
            from.len() > 0,
            replaced(s@, from@, to@) == out@ + replaced(
                s@.subrange(i as int, s.len() as int),
                from@,
                to@,
            ),
        decreases s.len() - i,
    {
        let ghost rest = s@.subrange(i as int, s.len() as int);
        if matches_at(s, from, i) {
            proof {
                assert(rest.subrange(0, from.len() as int) =~= s@.subrange(
                    i as int,
                    i + from.len(),
                ));
                assert(rest.subrange(from.len() as int, rest.len() as int) =~= s@.subrange(
                    i + from.len(),
                    s.len() as int,
                ));
                assert(out@ + (to@ + replaced(
                    s@.subrange(i + from.len(), s.len() as int),
                    from@,
                    to@,
                )) =~= (out@ + to@) + replaced(
                    s@.subrange(i + from.len(), s.len() as int),
                    from@,
                    to@,
                ));
            }
            append(&mut out, to);
            i += from.len();
        } else {
            proof {
                if rest.len() >= from.len() {
                    assert(rest.subrange(0, from.len() as int) =~= s@.subrange(
                        i as int,
                        i + from.len(),
                    ));
                    assert(rest.subrange(1, rest.len() as int) =~= s@.subrange(
                        i + 1,
                        s.len() as int,
                    ));
                    assert(out@ + (seq![rest[0]] + replaced(
                        s@.subrange(i + 1, s.len() as int),
                        from@,
                        to@,
                    )) =~= out@.push(s@[i as int]) + replaced(
                        s@.subrange(i + 1, s.len() as int),
                        from@,
                        to@,
                    ));
                } else {
                    lemma_replaced_short(rest, from@, to@);
                    lemma_replaced_short(s@.subrange(i + 1, s.len() as int), from@, to@);
                    assert(out@ + rest =~= out@.push(s@[i as int]) + s@.subrange(
                        i + 1,
                        s.len() as int,
                    ));
                }
            }
            out.push(s[i]);
            i += 1;
        }
    }
    assert(out@ + Seq::<char>::empty() =~= out@);
    out
}

/// Text shorter than what is looked for holds no occurrence of it.
pub proof fn lemma_replaced_short(s: Seq<char>, from: Seq<char>, to: Seq<char>)
    requires
        s.len() < from.len(),
    ensures
        replaced(s, from, to) == s,
{
}

/// The character of a decimal digit.
fn digit(d: usize) -> (c: char)
    requires
        d < 10,
    ensures
        c == digit_char(d as int),
{
    if d == 0 {
        '0'
    } else if d == 1 {
        '1'
    } else if d == 2 {
        '2'
    } else if d == 3 {
        '3'
    } else if d == 4 {
        '4'
    } else if d == 5 {
        '5'
    } else if d == 6 {
        '6'
    } else if d == 7 {
        '7'
    } else if d == 8 {
        '8'
    } else {
        '9'
    }
}

/// `n` written in decimal.
pub fn decimal(n: usize) -> (v: Vec<char>)
    ensures
        v@ == decimal_digits(n as nat),
    decreases n,
{
    if n < 10 {
        let mut v: Vec<char> = Vec::new();
        v.push(digit(n));
        v
    } else {
        let mut v = decimal(n / 10);
        v.push(digit(n % 10));
        v
    }
}

} // verus!
