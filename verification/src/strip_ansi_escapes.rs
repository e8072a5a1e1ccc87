//! Removal of terminal escape sequences from a stream of bytes.
//!
//! The bytes run through a terminal parser, which tells for each byte
//! whether a character is to be printed, a control code to be executed, or
//! nothing to be done. Printed characters reach the output, and of the
//! control codes only line feed, tab and carriage return.

use vstd::prelude::*;
use vstd::utf8::*;

verus! {

#[verifier::external_type_specification]
#[verifier::external_body]
pub struct ExParser(vte::Parser);

/// What the terminal parser asks of its performer for one byte of input.
pub enum Signal {
    /// The byte is inside a sequence, or ends one: nothing reaches the output.
    Nothing,
    /// A character is to be drawn.
    Print(char),
    /// A control code is to be executed.
    Execute(u8),
}

/// The bytes that a parser has consumed since it was made.
pub uninterp spec fn parser_fed(parser: vte::Parser) -> Seq<u8>;

/// What a parser that has consumed `fed` asks of its performer on `byte`.
pub uninterp spec fn parser_signal(fed: Seq<u8>, byte: u8) -> Signal;

/// A character of clean text: a line feed, a tab, a carriage return, or any
/// character from the space on. No control code below the space is among
/// them but those three, and so no escape; the delete character and the
/// control codes from U+0080 to U+009F are, since the filter prints them.
pub open spec fn clean_char(c: char) -> bool {
    c == '\n' || c == '\t' || c == '\r' || c >= ' '
}

/// Text that holds clean characters only.
pub open spec fn clean_text(text: Seq<char>) -> bool {
    forall|i: int| 0 <= i < text.len() ==> clean_char(#[trigger] text[i])
}

/// Bytes that are the UTF-8 encoding of clean text.
pub open spec fn clean_bytes(data: Seq<u8>) -> bool {
    valid_utf8(data) && clean_text(decode_utf8(data))
}

/// What the parser asks for a clean character once it has all its bytes:
/// line feed, tab and carriage return are executed, every other is printed.
pub open spec fn char_signal(c: char) -> Signal {
    if c == '\n' || c == '\t' || c == '\r' {
        Signal::Execute(c as u8)
    } else {
        Signal::Print(c)
    }
}

/// `fed` is the encoding of the text `text`, followed by the first `j` bytes
/// of the encoding of the character `c`, and `byte` is the next byte of that
/// encoding.
pub open spec fn inside_char(fed: Seq<u8>, byte: u8, text: Seq<char>, c: char, j: int) -> bool {
    &&& 0 <= j < encode_utf8(seq![c]).len()
    &&& fed == encode_utf8(text) + encode_utf8(seq![c]).subrange(0, j)
    &&& byte == encode_utf8(seq![c])[j]
}

/// `byte` is byte `j` of the clean character `c`, which follows the clean
/// text `text` in what was consumed.
pub open spec fn within_char(fed: Seq<u8>, byte: u8, text: Seq<char>, c: char, j: int) -> bool {
    clean_text(text) && clean_char(c) && inside_char(fed, byte, text, c, j)
}

/// What the parser asks at byte `j` of the encoding of the clean character
/// `c`: nothing before the last byte, and the character's signal at the last.
pub open spec fn signal_within(c: char, j: int) -> Signal {
    if j + 1 == encode_utf8(seq![c]).len() {
        char_signal(c)
    } else {
        Signal::Nothing
    }
}

/// A parser that has consumed clean text and part of one more clean
/// character reads the next byte of that character as clean text.
pub open spec fn reads_clean_text(fed: Seq<u8>, byte: u8) -> bool {
    forall|text: Seq<char>, c: char, j: int| #[trigger]
        within_char(fed, byte, text, c, j) ==> parser_signal(fed, byte) == signal_within(c, j)
}

/// What the parser prints is never a control code.
pub open spec fn prints_visible(fed: Seq<u8>, byte: u8) -> bool {
    parser_signal(fed, byte) matches Signal::Print(c) ==> c >= ' '
}

/// While what the parser consumes is UTF-8 text, a character that it prints
/// is the one whose encoding ends at the byte just consumed.
pub open spec fn prints_consumed(fed: Seq<u8>, byte: u8) -> bool {
    forall|text: Seq<char>, c: char, j: int| #[trigger]
        inside_char(fed, byte, text, c, j) ==> (parser_signal(fed, byte) matches Signal::Print(p)
            ==> j + 1 == encode_utf8(seq![c]).len() && p == c)
}

/// A control code that the parser executes is the byte just consumed.
pub open spec fn executes_consumed(fed: Seq<u8>, byte: u8) -> bool {
    parser_signal(fed, byte) matches Signal::Execute(b) ==> b == byte
}

/// `kept` is what is left of `text` when some of its characters are
/// dropped: nothing is added and nothing changes place.
pub open spec fn kept_in_order(kept: Seq<char>, text: Seq<char>) -> bool
    decreases text.len(),
{
    if kept.len() == 0 {
        true
    } else if text.len() == 0 {
        false
    } else {
        (kept.last() == text.last() && kept_in_order(kept.drop_last(), text.drop_last()))
            || kept_in_order(kept, text.drop_last())
    }
}

/// `kept` holds UTF-8 text that is left of the UTF-8 text in `data` when
/// some characters are dropped; it is no longer than `data`.
pub open spec fn only_dropped(kept: Seq<u8>, data: Seq<u8>) -> bool {
    kept.len() <= data.len() && kept_in_order(decode_utf8(kept), decode_utf8(data))
}

/// The parser keeps its rules at byte `k` of `data`, having consumed `fed`
/// before `data`.
pub open spec fn rules_kept_at(fed: Seq<u8>, data: Seq<u8>, k: int) -> bool {
    let before = fed + data.subrange(0, k);
    &&& reads_clean_text(before, data[k])
    &&& prints_visible(before, data[k])
    &&& prints_consumed(before, data[k])
    &&& executes_consumed(before, data[k])
}

/// The parser keeps its rules at every byte of `data`.
pub open spec fn rules_kept(fed: Seq<u8>, data: Seq<u8>) -> bool {
    forall|k: int| 0 <= k < data.len() ==> #[trigger] rules_kept_at(fed, data, k)
}

/// Whether a control code reaches the output.
pub open spec fn is_kept_control(byte: u8) -> bool {
    byte == 0x0a || byte == 0x09 || byte == 0x0d
}

/// The output after a signal, given the output before it.
pub open spec fn performed(written: Seq<u8>, signal: Signal) -> Seq<u8> {
    match signal {
        Signal::Nothing => written,
        Signal::Print(c) => written + encode_utf8(seq![c]),
        Signal::Execute(byte) => if is_kept_control(byte) {
            written.push(byte)
        } else {
            written
        },
    }
}

/// What a parser that has consumed `fed` lets through of `data`.
pub open spec fn filtered_from(fed: Seq<u8>, data: Seq<u8>) -> Seq<u8>
    decreases data.len(),
{
    if data.len() == 0 {
        Seq::empty()
    } else {
        performed(
            filtered_from(fed, data.drop_last()),
            parser_signal(fed + data.drop_last(), data.last()),
        )
    }
}

/// What a fresh parser lets through of `data`.
pub open spec fn filtered(data: Seq<u8>) -> Seq<u8> {
    filtered_from(Seq::empty(), data)
}

/// Receives what the parser finds and writes what is kept.
pub struct Performer {
    writer: Vec<u8>,
}

impl View for Performer {
    type V = Seq<u8>;

    closed spec fn view(&self) -> Seq<u8> {
        self.writer@
    }
}

/// `vte::Parser::new`: a parser that has consumed nothing.
#[verifier::external_body]
fn new_parser() -> (parser: vte::Parser)
    ensures
        parser_fed(parser) == Seq::<u8>::empty(),
{
    vte::Parser::new()
}

/// `vte::Parser::advance`: the parser consumes `byte` and calls the
/// performer. For one byte it makes at most one call of `print` or
/// `execute`; its other calls leave this performer as it is. After clean
/// text it is in its ground state, where it executes line feed, tab and
/// carriage return, prints the other ASCII characters from the space on, and
/// decodes a longer UTF-8 sequence in silence until it prints the character
/// at the sequence's last byte. What it prints is an ASCII character from
/// the space on, a character decoded from several bytes, or the replacement
/// character: never a control code. It prints the replacement character
/// only where the bytes are not well formed; in UTF-8 text it begins to
/// decode only at the first byte of a character, so that what it prints
/// there is the character that ends at the byte consumed. What it executes
/// is that byte.
#[verifier::external_body]
fn advance(parser: &mut vte::Parser, performer: &mut Performer, byte: u8)
    ensures
        parser_fed(*final(parser)) == parser_fed(*old(parser)).push(byte),
        final(performer)@ == performed(
            old(performer)@,
            parser_signal(parser_fed(*old(parser)), byte),
        ),
        reads_clean_text(parser_fed(*old(parser)), byte),
        prints_visible(parser_fed(*old(parser)), byte),
        prints_consumed(parser_fed(*old(parser)), byte),
        executes_consumed(parser_fed(*old(parser)), byte),
{
    parser.advance(performer, byte)
}

/// `char::encode_utf8`: the bytes of a character's UTF-8 encoding.
#[verifier::external_body]
fn utf8_of(c: char) -> (bytes: Vec<u8>)
    ensures
        bytes@ == encode_utf8(seq![c]),
{
    let mut buf = [0u8; 4];
    c.encode_utf8(&mut buf).as_bytes().to_vec()
}

impl Performer {
    /// A performer that writes to `inner`.
    pub fn new(inner: Vec<u8>) -> (performer: Performer)
        ensures
            performer@ == inner@,
    {
        Performer { writer: inner }
    }

    /// Everything written so far is already in the output: nothing is held
    /// back, so there is nothing to do.
    pub fn flush(&mut self)
        ensures
            final(self)@ == old(self)@,
    {
    }

    /// The output.
    pub fn into_inner(self) -> (inner: Vec<u8>)
        ensures
            inner@ == self@,
    {
        self.writer
    }

    /// Writes a character to the output.
    pub fn put_char(&mut self, c: char)
        ensures
            final(self)@ == performed(old(self)@, Signal::Print(c)),
    {
        let mut bytes = utf8_of(c);
        self.writer.append(&mut bytes);
    }

    /// Writes a control code to the output if it is a line feed, a tab or a
    /// carriage return, and drops it otherwise.
    pub fn put_control(&mut self, byte: u8)
        ensures
            final(self)@ == performed(old(self)@, Signal::Execute(byte)),
    {
        if byte == 0x0a || byte == 0x09 || byte == 0x0d {
            self.writer.push(byte);
        }
    }
}

impl vte::Perform for Performer {
    fn print(&mut self, c: char)
        ensures
            final(self)@ == performed(old(self)@, Signal::Print(c)),
    {
        self.put_char(c);
    }

    fn execute(&mut self, byte: u8)
        ensures
            final(self)@ == performed(old(self)@, Signal::Execute(byte)),
    {
        self.put_control(byte);
    }

    fn hook(&mut self, _params: &[i64], _intermediates: &[u8], _ignore: bool)
        ensures
            final(self)@ == old(self)@,
    {
    }

    fn put(&mut self, _byte: u8)
        ensures
            final(self)@ == old(self)@,
    {
    }

    fn unhook(&mut self)
        ensures
            final(self)@ == old(self)@,
    {
    }

    fn osc_dispatch(&mut self, _params: &[&[u8]])
        ensures
            final(self)@ == old(self)@,
    {
    }

    fn csi_dispatch(&mut self, _params: &[i64], _intermediates: &[u8], _ignore: bool, _c: char)
        ensures
            final(self)@ == old(self)@,
    {
    }

    fn esc_dispatch(&mut self, _params: &[i64], _intermediates: &[u8], _ignore: bool, _byte: u8)
        ensures
            final(self)@ == old(self)@,
    {
    }
}

/// Strips escape sequences from the bytes written to it and hands the rest
/// on to its output.
pub struct Writer {
    performer: Performer,
    parser: vte::Parser,
}

impl Writer {
    /// The bytes written to this writer so far.
    pub closed spec fn fed(&self) -> Seq<u8> {
        parser_fed(self.parser)
    }

    /// The output so far.
    pub closed spec fn written(&self) -> Seq<u8> {
        self.performer@
    }

    /// A writer whose output goes to `inner`.
    pub fn new(inner: Vec<u8>) -> (writer: Writer)
        ensures
            writer.fed() == Seq::<u8>::empty(),
            writer.written() == inner@,
    {
        Writer { performer: Performer::new(inner), parser: new_parser() }
    }

    /// The output.
    pub fn into_inner(self) -> (inner: Vec<u8>)
        ensures
            inner@ == self.written(),
    {
        self.performer.into_inner()
    }

    /// Takes all of `buf` and returns its length. The output grows by what
    /// the parser lets through, which is always clean text; clean text
    /// written to a writer that has seen only clean text goes through
    /// unchanged, and of UTF-8 text written to a writer that has seen only
    /// UTF-8 text characters are dropped and nothing else happens.
    pub fn write(&mut self, buf: &[u8]) -> (taken: usize)
        ensures
            taken == buf.len(),
            final(self).fed() == old(self).fed() + buf@,
            final(self).written() == old(self).written() + filtered_from(old(self).fed(), buf@),
            clean_bytes(filtered_from(old(self).fed(), buf@)),
            clean_bytes(old(self).fed()) && clean_bytes(buf@) ==> final(self).written() == old(
                self,
            ).written() + buf@,
            valid_utf8(old(self).fed()) && valid_utf8(buf@) ==> only_dropped(
                filtered_from(old(self).fed(), buf@),
                buf@,
            ),
    {
        let ghost fed = self.fed();
        let ghost before = self.written();
        let mut i: usize = 0;
        proof {
            assert(fed + buf@.subrange(0, 0) =~= fed);
            assert(before + filtered_from(fed, buf@.subrange(0, 0)) =~= before);
        }
        while i < buf.len()
            invariant
                i <= buf.len(),
                parser_fed(self.parser) == fed + buf@.subrange(0, i as int),
                self.performer@ == before + filtered_from(fed, buf@.subrange(0, i as int)),
                forall|k: int| 0 <= k < i ==> #[trigger] rules_kept_at(fed, buf@, k),
            decreases buf.len() - i,
        {
            let byte = buf[i];
            proof {
                let head = buf@.subrange(0, i as int);
                let next = buf@.subrange(0, i + 1);
                assert(next.drop_last() =~= head);
                assert(next.last() == byte);
                assert(fed + next =~= (fed + head).push(byte));
                lemma_performed_after(
                    before,
                    filtered_from(fed, head),
                    parser_signal(fed + head, byte),
                );
            }
            advance(&mut self.parser, &mut self.performer, byte);
            assert(rules_kept_at(fed, buf@, i as int));
            i += 1;
        }
        proof {
            assert(buf@.subrange(0, buf.len() as int) =~= buf@);
            lemma_filtered_is_clean(fed, buf@);
            if clean_bytes(fed) && clean_bytes(buf@) {
                lemma_clean_text_unchanged(fed, buf@);
            }
            if valid_utf8(fed) && valid_utf8(buf@) {
                lemma_only_drops(fed, buf@);
            }
        }
        i
    }

    /// Everything written so far is already in the output.
    pub fn flush(&mut self)
        ensures
            final(self).fed() == old(self).fed(),
            final(self).written() == old(self).written(),
    {
        self.performer.flush();
    }
}

/// A signal adds to the end of the output, whatever came before.
pub proof fn lemma_performed_after(before: Seq<u8>, written: Seq<u8>, signal: Signal)
    ensures
        performed(before + written, signal) == before + performed(written, signal),
{
    match signal {
        Signal::Nothing => {},
        Signal::Print(c) => {
            assert((before + written) + encode_utf8(seq![c]) =~= before + (written + encode_utf8(
                seq![c],
            )));
        },
        Signal::Execute(byte) => {
            assert((before + written).push(byte) =~= before + written.push(byte));
        },
    }
}

/// The encoding of two texts, one after the other, is the encoding of the
/// first followed by that of the second.
pub proof fn lemma_encode_concat(a: Seq<char>, b: Seq<char>)
    ensures
        encode_utf8(a + b) == encode_utf8(a) + encode_utf8(b),
    decreases a.len(),
{
    if a.len() == 0 {
        assert(a + b =~= b);
        assert(encode_utf8(a) + encode_utf8(b) =~= encode_utf8(b));
    } else {
        lemma_encode_concat(a.drop_first(), b);
        assert((a + b).drop_first() =~= a.drop_first() + b);
        assert((a + b)[0] == a[0]);
        assert(encode_scalar(a[0] as u32) + (encode_utf8(a.drop_first()) + encode_utf8(b))
            =~= (encode_scalar(a[0] as u32) + encode_utf8(a.drop_first())) + encode_utf8(b));
    }
}

/// The signal of a clean character writes the character's encoding.
pub proof fn lemma_char_written(written: Seq<u8>, c: char)
    requires
        clean_char(c),
    ensures
        performed(written, char_signal(c)) == written + encode_utf8(seq![c]),
{
    if c == '\n' || c == '\t' || c == '\r' {
        let chars = seq![c];
        assert(is_ascii_chars(chars));
        is_ascii_chars_encode_utf8(chars);
        assert(encode_utf8(chars) =~= seq![chars[0] as u8]);
        assert(written.push(c as u8) =~= written + seq![c as u8]);
    }
}

/// Clean bytes followed by the encoding of a clean character are clean.
pub proof fn lemma_clean_after_char(written: Seq<u8>, c: char)
    requires
        clean_bytes(written),
        clean_char(c),
    ensures
        clean_bytes(written + encode_utf8(seq![c])),
{
    let text = decode_utf8(written);
    decode_utf8_encode_utf8(written);
    lemma_encode_concat(text, seq![c]);
    encode_utf8_valid_utf8(text + seq![c]);
    encode_utf8_decode_utf8(text + seq![c]);
}

/// Where the parser keeps its rules on `data`, it keeps them on every part
/// of `data`, seen from what it has consumed before that part.
pub proof fn lemma_rules_kept_on_part(fed: Seq<u8>, data: Seq<u8>, from: int, to: int)
    requires
        rules_kept(fed, data),
        0 <= from <= to <= data.len(),
    ensures
        rules_kept(fed + data.subrange(0, from), data.subrange(from, to)),
{
    let part = data.subrange(from, to);
    assert forall|k: int| 0 <= k < part.len() implies #[trigger] rules_kept_at(
        fed + data.subrange(0, from),
        part,
        k,
    ) by {
        assert(rules_kept_at(fed, data, from + k));
        assert((fed + data.subrange(0, from)) + part.subrange(0, k) =~= fed + data.subrange(
            0,
            from + k,
        ));
    }
}

/// What comes through of two runs of bytes, one after the other, is what
/// comes through of the first followed by what comes through of the second.
pub proof fn lemma_filtered_concat(fed: Seq<u8>, a: Seq<u8>, b: Seq<u8>)
    ensures
        filtered_from(fed, a + b) == filtered_from(fed, a) + filtered_from(fed + a, b),
    decreases b.len(),
{
    if b.len() == 0 {
        assert(a + b =~= a);
        assert(filtered_from(fed, a) + filtered_from(fed + a, b) =~= filtered_from(fed, a));
    } else {
        lemma_filtered_concat(fed, a, b.drop_last());
        assert((a + b).drop_last() =~= a + b.drop_last());
        assert((a + b).last() == b.last());
        assert(fed + (a + b.drop_last()) =~= (fed + a) + b.drop_last());
        lemma_performed_after(
            filtered_from(fed, a),
            filtered_from(fed + a, b.drop_last()),
            parser_signal((fed + a) + b.drop_last(), b.last()),
        );
    }
}

/// A parser that keeps its rules is silent on the first bytes of a clean
/// character and lets the whole character through at its last byte.
pub proof fn lemma_char_filtered(text: Seq<char>, c: char, j: int)
    requires
        clean_text(text),
        clean_char(c),
        0 <= j <= encode_utf8(seq![c]).len(),
        rules_kept(encode_utf8(text), encode_utf8(seq![c]).subrange(0, j)),
    ensures
        filtered_from(encode_utf8(text), encode_utf8(seq![c]).subrange(0, j)) == if j
            == encode_utf8(seq![c]).len() {
            encode_utf8(seq![c])
        } else {
            Seq::empty()
        },
    decreases j,
{
    let fed = encode_utf8(text);
    let whole = encode_utf8(seq![c]);
    let part = whole.subrange(0, j);
    if j > 0 {
        let head = whole.subrange(0, j - 1);
        assert(part.drop_last() =~= head);
        assert(part.last() == whole[j - 1]);
        assert forall|k: int| 0 <= k < head.len() implies #[trigger] rules_kept_at(
            fed,
            head,
            k,
        ) by {
            assert(rules_kept_at(fed, part, k));
            assert(head.subrange(0, k) =~= part.subrange(0, k));
        }
        lemma_char_filtered(text, c, j - 1);
        assert(rules_kept_at(fed, part, j - 1));
        assert(part.subrange(0, j - 1) =~= head);
        assert(within_char(fed + head, whole[j - 1], text, c, j - 1));
        if j == whole.len() {
            lemma_char_written(Seq::empty(), c);
            assert(Seq::<u8>::empty() + whole =~= whole);
            assert(part =~= whole);
        }
    } else {
        assert(whole.len() > 0);
    }
}

/// Clean text goes through a parser that keeps its rules and has seen only
/// clean text as it is.
pub proof fn lemma_clean_text_unchanged(fed: Seq<u8>, data: Seq<u8>)
    requires
        clean_bytes(fed),
        clean_bytes(data),
        rules_kept(fed, data),
    ensures
        filtered_from(fed, data) == data,
    decreases decode_utf8(data).len(),
{
    let text = decode_utf8(data);
    decode_utf8_encode_utf8(data);
    if text.len() == 0 {
        assert(data =~= Seq::<u8>::empty());
    } else {
        let seen = decode_utf8(fed);
        decode_utf8_encode_utf8(fed);
        let front = text.drop_last();
        let c = text.last();
        let a = encode_utf8(front);
        let e = encode_utf8(seq![c]);
        assert(text =~= front + seq![c]);
        lemma_encode_concat(front, seq![c]);
        assert(data == a + e);
        encode_utf8_valid_utf8(front);
        encode_utf8_decode_utf8(front);
        assert(data.subrange(0, a.len() as int) =~= a);
        assert(data.subrange(a.len() as int, data.len() as int) =~= e);
        lemma_rules_kept_on_part(fed, data, 0, a.len() as int);
        assert(fed + data.subrange(0, 0) =~= fed);
        lemma_clean_text_unchanged(fed, a);
        lemma_filtered_concat(fed, a, e);
        lemma_rules_kept_on_part(fed, data, a.len() as int, data.len() as int);
        lemma_encode_concat(seen, front);
        assert(e.subrange(0, e.len() as int) =~= e);
        lemma_char_filtered(seen + front, c, e.len() as int);
    }
}

/// What comes through a parser that keeps its rules is clean text.
pub proof fn lemma_filtered_is_clean(fed: Seq<u8>, data: Seq<u8>)
    requires
        rules_kept(fed, data),
    ensures
        clean_bytes(filtered_from(fed, data)),
    decreases data.len(),
{
    if data.len() == 0 {
        assert(decode_utf8(Seq::<u8>::empty()) =~= Seq::<char>::empty());
    } else {
        let head = data.drop_last();
        assert(head =~= data.subrange(0, data.len() - 1));
        lemma_rules_kept_on_part(fed, data, 0, data.len() - 1);
        assert(fed + data.subrange(0, 0) =~= fed);
        lemma_filtered_is_clean(fed, head);
        let written = filtered_from(fed, head);
        assert(rules_kept_at(fed, data, data.len() - 1));
        match parser_signal(fed + head, data.last()) {
            Signal::Nothing => {},
            Signal::Print(c) => {
                lemma_clean_after_char(written, c);
            },
            Signal::Execute(byte) => {
                if is_kept_control(byte) {
                    let c = byte as char;
                    lemma_clean_after_char(written, c);
                    lemma_char_written(written, c);
                }
            },
        }
    }
}

/// A byte below 0x80 in the encoding of a character is the whole encoding.
pub proof fn lemma_low_byte_is_whole(c: char, j: int)
    requires
        0 <= j < encode_utf8(seq![c]).len(),
        encode_utf8(seq![c])[j] < 0x80,
    ensures
        encode_utf8(seq![c]).len() == 1,
{
    let s = c as u32;
    let rest = seq![c].drop_first();
    assert(encode_utf8(rest) =~= Seq::<u8>::empty());
    assert(encode_utf8(seq![c]) =~= encode_scalar(s) + encode_utf8(rest));
    assert(encode_utf8(seq![c]) =~= encode_scalar(s));
    assert(0xC0u8 | ((s >> 6) & 0x1F) as u8 >= 0x80) by (bit_vector);
    assert(0xE0u8 | ((s >> 12) & 0x0F) as u8 >= 0x80) by (bit_vector);
    assert(0xF0u8 | ((s >> 18) & 0x7) as u8 >= 0x80) by (bit_vector);
    assert(0x80u8 | (s & 0x3F) as u8 >= 0x80) by (bit_vector);
    assert(0x80u8 | ((s >> 6) & 0x3F) as u8 >= 0x80) by (bit_vector);
    assert(0x80u8 | ((s >> 12) & 0x3F) as u8 >= 0x80) by (bit_vector);
}

/// Of the bytes of one character after UTF-8 text, a parser that keeps its
/// rules lets nothing through before the last, and at the last the whole
/// character or nothing.
pub proof fn lemma_char_drops(text: Seq<char>, c: char, j: int)
    requires
        0 <= j <= encode_utf8(seq![c]).len(),
        rules_kept(encode_utf8(text), encode_utf8(seq![c]).subrange(0, j)),
    ensures
        j < encode_utf8(seq![c]).len() ==> filtered_from(
            encode_utf8(text),
            encode_utf8(seq![c]).subrange(0, j),
        ) == Seq::<u8>::empty(),
        filtered_from(encode_utf8(text), encode_utf8(seq![c]).subrange(0, j)) == Seq::<u8>::empty()
            || filtered_from(encode_utf8(text), encode_utf8(seq![c]).subrange(0, j))
            == encode_utf8(seq![c]),
    decreases j,
{
    let fed = encode_utf8(text);
    let whole = encode_utf8(seq![c]);
    let part = whole.subrange(0, j);
    if j > 0 {
        let head = whole.subrange(0, j - 1);
        let byte = whole[j - 1];
        assert(part.drop_last() =~= head);
        assert(part.last() == byte);
        assert forall|k: int| 0 <= k < head.len() implies #[trigger] rules_kept_at(
            fed,
            head,
            k,
        ) by {
            assert(rules_kept_at(fed, part, k));
            assert(head.subrange(0, k) =~= part.subrange(0, k));
        }
        lemma_char_drops(text, c, j - 1);
        assert(rules_kept_at(fed, part, j - 1));
        assert(part.subrange(0, j - 1) =~= head);
        assert(inside_char(fed + head, byte, text, c, j - 1));
        match parser_signal(fed + head, byte) {
            Signal::Nothing => {},
            Signal::Print(p) => {
                assert(Seq::<u8>::empty() + whole =~= whole);
            },
            Signal::Execute(b) => {
                if is_kept_control(b) {
                    lemma_low_byte_is_whole(c, j - 1);
                    assert(Seq::<u8>::empty().push(b) =~= whole);
                }
            },
        }
    }
}

/// Of UTF-8 text, a parser that keeps its rules and has seen only UTF-8 text
/// drops characters and does nothing else.
pub proof fn lemma_only_drops(fed: Seq<u8>, data: Seq<u8>)
    requires
        valid_utf8(fed),
        valid_utf8(data),
        rules_kept(fed, data),
    ensures
        only_dropped(filtered_from(fed, data), data),
    decreases decode_utf8(data).len(),
{
    let text = decode_utf8(data);
    decode_utf8_encode_utf8(data);
    if text.len() == 0 {
        assert(data =~= Seq::<u8>::empty());
        assert(decode_utf8(Seq::<u8>::empty()) =~= Seq::<char>::empty());
    } else {
        let seen = decode_utf8(fed);
        decode_utf8_encode_utf8(fed);
        let front = text.drop_last();
        let c = text.last();
        let a = encode_utf8(front);
        let e = encode_utf8(seq![c]);
        assert(text =~= front + seq![c]);
        lemma_encode_concat(front, seq![c]);
        assert(data == a + e);
        encode_utf8_valid_utf8(front);
        encode_utf8_decode_utf8(front);
        assert(data.subrange(0, a.len() as int) =~= a);
        assert(data.subrange(a.len() as int, data.len() as int) =~= e);
        lemma_rules_kept_on_part(fed, data, 0, a.len() as int);
        assert(fed + data.subrange(0, 0) =~= fed);
        lemma_only_drops(fed, a);
        lemma_filtered_is_clean(fed, a);
        lemma_filtered_concat(fed, a, e);
        lemma_rules_kept_on_part(fed, data, a.len() as int, data.len() as int);
        lemma_encode_concat(seen, front);
        assert(e.subrange(0, e.len() as int) =~= e);
        lemma_char_drops(seen + front, c, e.len() as int);
        let kept_front = filtered_from(fed, a);
        let kept_last = filtered_from(fed + a, e);
        let kept = decode_utf8(kept_front);
        if kept_last == e {
            decode_utf8_encode_utf8(kept_front);
            lemma_encode_concat(kept, seq![c]);
            encode_utf8_decode_utf8(kept + seq![c]);
            assert((kept + seq![c]).drop_last() =~= kept);
            assert((kept + seq![c]).last() == c);
        } else {
            assert(kept_front + kept_last =~= kept_front);
        }
    }
}

/// Filtering what was filtered changes nothing, for a parser that keeps its
/// rules on the bytes and on what it let through of them.
pub proof fn lemma_filtered_twice(data: Seq<u8>)
    requires
        rules_kept(Seq::empty(), data),
        rules_kept(Seq::empty(), filtered(data)),
    ensures
        filtered(filtered(data)) == filtered(data),
{
    lemma_filtered_is_clean(Seq::empty(), data);
    assert(decode_utf8(Seq::<u8>::empty()) =~= Seq::<char>::empty());
    lemma_clean_text_unchanged(Seq::empty(), filtered(data));
}

/// What is left of `data` once its escape sequences are stripped. The
/// result is always clean text, and clean text comes back as it went in: so
/// stripping what was stripped changes nothing. Of UTF-8 text characters are
/// dropped, and nothing is added or moved.
pub fn strip(data: &[u8]) -> (out: Vec<u8>)
    ensures
        out@ == filtered(data@),
        clean_bytes(out@),
        clean_bytes(data@) ==> out@ == data@,
        valid_utf8(data@) ==> only_dropped(out@, data@),
{
    let mut writer = Writer::new(Vec::new());
    writer.write(data);
    let out = writer.into_inner();
    proof {
        assert(Seq::<u8>::empty() + filtered(data@) =~= filtered(data@));
        assert(Seq::<u8>::empty() + data@ =~= data@);
        assert(decode_utf8(Seq::<u8>::empty()) =~= Seq::<char>::empty());
    }
    out
}

} // verus!
