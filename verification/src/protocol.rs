//! The framing of LSP messages: a `Content-Length` header, a blank line, and
//! the JSON body.
use crate::text::{
    chars_of, decimal, decimal_string, has_prefix, is_white_space, lemma_decimal_digits,
    parse_usize, parse_usize_exec, trim, trim_end, trim_end_line_break, trim_start,
    trimmed, unsigned_digits,
};
use crate::json::{encode_body, json_text, JsonValue};
use vstd::prelude::*;

verus! {

/// What one header line tells the reader.
#[derive(Debug, PartialEq, Eq)]
pub enum HeaderStep {
    /// The blank line: the body follows.
    EndOfHeaders,
    /// Another header line; the content length known after it.
    Continue(Option<usize>),
}

/// The name of the header that gives the body's length, with its colon.
pub open spec fn content_length_name() -> Seq<char> {
    "Content-Length:"@
}

/// What the header line `line` (as read, with its line break) does to the
/// content length read so far: a blank line ends the header; a
/// `Content-Length:` line sets the length to its trimmed value when that is a
/// number, and clears it otherwise; any other line leaves it as it was.
pub open spec fn header_step(line: Seq<char>, content_length: Option<usize>) -> HeaderStep {
    let l = trim_end_line_break(line);
    if l.len() == 0 {
        HeaderStep::EndOfHeaders
    } else if has_prefix(l, content_length_name()) {
        HeaderStep::Continue(parse_usize(trim(l.skip(content_length_name().len() as int))))
    } else {
        HeaderStep::Continue(content_length)
    }
}

proof fn lemma_trim_end_line_break_step(s: Seq<char>, hi: int)
    requires
        0 < hi <= s.len(),
        s[hi - 1] == '\r' || s[hi - 1] == '\n',
    ensures
        trim_end_line_break(s.take(hi)) == trim_end_line_break(s.take(hi - 1)),
{
    assert(s.take(hi).drop_last() =~= s.take(hi - 1));
}

/// Reads one header line (`line` as `read_line` gives it) given the content
/// length read so far.
pub fn read_header_line(line: &str, content_length: Option<usize>) -> (r: HeaderStep)
    ensures
        r == header_step(line@, content_length),
{
    let v = chars_of(line);
    let mut end = v.len();
    assert(v@.take(end as int) =~= line@);
    while end > 0 && (v[end - 1] == '\r' || v[end - 1] == '\n')
        invariant
            end <= v@.len(),
            v@ == line@,
            trim_end_line_break(line@) == trim_end_line_break(v@.take(end as int)),
        decreases end,
    {
        proof {
            lemma_trim_end_line_break_step(v@, end as int);
        }
        end = end - 1;
    }
    let ghost l = v@.take(end as int);
    assert(trim_end_line_break(l) == l) by {
        if l.len() > 0 {
            assert(l.last() == v@[end - 1]);
        }
    }
    if end == 0 {
        return HeaderStep::EndOfHeaders;
    }
    let name = chars_of("Content-Length:");
    let k = name.len();
    if k > end {
        return HeaderStep::Continue(content_length);
    }
    let mut i: usize = 0;
    while i < k
        invariant
            i <= k == name@.len() <= end <= v@.len(),
            name@ == content_length_name(),
            v@ == line@,
            l == v@.take(end as int),
            trim_end_line_break(line@) == l,
            forall|j: int| 0 <= j < i ==> v@[j] == name@[j],
        decreases k - i,
    {
        if v[i] != name[i] {
            proof {
                assert(l.take(k as int)[i as int] != name@[i as int]);
            }
            return HeaderStep::Continue(content_length);
        }
        i = i + 1;
    }
    assert(l.take(k as int) =~= name@);
    let value = line.substring_char(k, end);
    assert(value@ =~= l.skip(k as int));
    let t = trimmed(value);
    HeaderStep::Continue(parse_usize_exec(t.as_str()))
}

/// The bytes of an ASCII text.
pub open spec fn ascii_bytes(s: Seq<char>) -> Seq<u8> {
    s.map_values(|c: char| c as u8)
}

/// The header line that announces a body of `length` bytes.
pub open spec fn length_line(length: nat) -> Seq<char> {
    "Content-Length: "@ + decimal(length) + "\r\n"@
}

/// A message as it is written: the length line, a blank line, the body.
pub open spec fn frame(body: Seq<u8>) -> Seq<u8> {
    ascii_bytes(length_line(body.len()) + "\r\n"@) + body
}

/// The bytes that carry `body` as one message.
pub fn frame_message(body: &[u8]) -> (r: Vec<u8>)
    ensures
        r@ == frame(body@),
{
    let length = decimal_string(body.len() as u128);
    let header = String::from_str("Content-Length: ").concat(length.as_str()).concat(
        "\r\n",
    ).concat("\r\n");
    let h = chars_of(header.as_str());
    let mut r: Vec<u8> = Vec::new();
    let mut i: usize = 0;
    while i < h.len()
        invariant
            i <= h@.len(),
            r@ == ascii_bytes(h@.take(i as int)),
        decreases h@.len() - i,
    {
        let c = h[i];
        proof {
            assert(ascii_bytes(h@.take(i + 1)) =~= ascii_bytes(h@.take(i as int)).push(c as u8));
        }
        r.push(c as u8);
        i = i + 1;
    }
    assert(h@.take(i as int) =~= h@);
    let ghost head = r@;
    let mut j: usize = 0;
    while j < body.len()
        invariant
            j <= body@.len(),
            r@ == head + body@.take(j as int),
        decreases body@.len() - j,
    {
        proof {
            assert(body@.take(j + 1) =~= body@.take(j as int).push(body@[j as int]));
        }
        r.push(body[j]);
        j = j + 1;
    }
    assert(body@.take(j as int) =~= body@);
    assert(h@ =~= length_line(body@.len() as nat) + "\r\n"@);
    r
}

proof fn lemma_trim_of_spaced_number(n: nat)
    ensures
        trim(seq![' '] + decimal(n)) == decimal(n),
{
    lemma_decimal_digits(n);
    let d = decimal(n);
    let s = seq![' '] + d;
    assert(is_white_space(' '));
    assert(s.drop_first() =~= d);
    assert(!is_white_space(d[0])) by {
        assert(crate::text::is_digit(d[0]));
    }
    assert(trim_start(d) == d);
    assert(trim_start(s) == d);
    assert(!is_white_space(d.last())) by {
        assert(crate::text::is_digit(d[d.len() - 1]));
    }
    assert(trim_end(d) == d);
}

/// What a reader gives back of a written message: the frame of `body` is the
/// length line, which holds its only line feed at its end, then a blank line,
/// then `body`; read after any earlier header lines, the length line sets the
/// content length to the body's length, and the blank line ends the header.
pub proof fn lemma_frame_reads_back(body: Seq<u8>, earlier: Option<usize>)
    requires
        body.len() <= usize::MAX,
    ensures
        frame(body) == ascii_bytes(length_line(body.len())) + ascii_bytes("\r\n"@) + body,
        length_line(body.len()).last() == '\n',
        forall|i: int|
            0 <= i < length_line(body.len()).len() - 1 ==> #[trigger] length_line(body.len())[i]
                != '\n',
        header_step(length_line(body.len()), earlier) == HeaderStep::Continue(
            Some(body.len() as usize),
        ),
        header_step("\r\n"@, Some(body.len() as usize)) == HeaderStep::EndOfHeaders,
{
    let n = body.len();
    let d = decimal(n);
    lemma_decimal_digits(n);
    reveal_strlit("Content-Length: ");
    reveal_strlit("Content-Length:");
    reveal_strlit("\r\n");
    let line = length_line(n);
    let prefix = "Content-Length: "@;
    assert(ascii_bytes(line + "\r\n"@) =~= ascii_bytes(line) + ascii_bytes("\r\n"@));
    assert forall|i: int| 0 <= i < line.len() - 1 implies #[trigger] line[i] != '\n' by {
        if i >= prefix.len() && i < prefix.len() + d.len() {
            assert(line[i] == d[i - prefix.len()]);
            assert(crate::text::is_digit(d[i - prefix.len()]));
        }
    }
    // The line without its line break.
    let bare = prefix + d;
    assert(line.drop_last() =~= bare + seq!['\r']);
    assert((bare + seq!['\r']).drop_last() =~= bare);
    assert(!(bare.last() == '\r' || bare.last() == '\n')) by {
        assert(bare.last() == d[d.len() - 1]);
        assert(crate::text::is_digit(d[d.len() - 1]));
    }
    assert(trim_end_line_break(bare) == bare);
    assert(trim_end_line_break(bare + seq!['\r']) == bare);
    assert(trim_end_line_break(line) == bare);
    let name = content_length_name();
    assert(bare.take(name.len() as int) =~= name);
    assert(bare.skip(name.len() as int) =~= seq![' '] + d);
    lemma_trim_of_spaced_number(n);
    assert(unsigned_digits(d) == d) by {
        assert(crate::text::is_digit(d[0]));
    }
    assert(parse_usize(d) == Some(n as usize));
    // The blank line.
    let blank = "\r\n"@;
    assert(blank.drop_last() =~= seq!['\r']);
    assert(seq!['\r'].drop_last() =~= Seq::<char>::empty());
    assert(trim_end_line_break(Seq::<char>::empty()) == Seq::<char>::empty());
    assert(trim_end_line_break(seq!['\r']) == Seq::<char>::empty());
    assert(trim_end_line_break(blank) == Seq::<char>::empty());
}


// ---------------------------------------------------------------------------
// Reading and writing whole messages
// ---------------------------------------------------------------------------

/// What the reader does after a header line.
#[derive(Debug, PartialEq, Eq)]
pub enum ReadStep {
    /// Read the next header line.
    NextLine,
    /// The header has ended: read a body of this many bytes.
    ReadBody(usize),
    /// The header has ended without a content length: there is no message.
    NoMessage,
}

/// The content length after a header line, and what to do next.
pub open spec fn read_step(content_length: Option<usize>, line: Seq<char>) -> (Option<usize>, ReadStep) {
    match header_step(line, content_length) {
        HeaderStep::EndOfHeaders => (content_length, match content_length {
            Some(n) => ReadStep::ReadBody(n),
            None => ReadStep::NoMessage,
        }),
        HeaderStep::Continue(length) => (length, ReadStep::NextLine),
    }
}

/// How each header line moves the reader, whatever was read before it: the
/// blank line ends the header and keeps the length, asking for a body of
/// that length when there is one; a `Content-Length:` line sets the length
/// from its own value alone; any other header line (`Content-Type:`, say)
/// leaves the length as it was. So a length survives every later line that
/// is not a `Content-Length:` line.
pub proof fn lemma_header_lines(content_length: Option<usize>, other: Option<usize>, line: Seq<char>)
    ensures
        ({
            let l = trim_end_line_break(line);
            let (next, step) = read_step(content_length, line);
            &&& l.len() == 0 ==> next == content_length && step == match content_length {
                Some(n) => ReadStep::ReadBody(n),
                None => ReadStep::NoMessage,
            }
            &&& l.len() > 0 ==> step == ReadStep::NextLine
            &&& l.len() > 0 && has_prefix(l, "Content-Length:"@) ==> next == read_step(
                other,
                line,
            ).0
            &&& l.len() > 0 && !has_prefix(l, "Content-Length:"@) ==> next == content_length
        }),
{
}

/// Reads the header of one message, line by line.
pub struct MessageReader {
    pub content_length: Option<usize>,
}

impl MessageReader {
    /// A reader at the start of a message, with no content length known.
    pub fn new() -> (r: MessageReader)
        ensures
            r.content_length is None,
    {
        MessageReader { content_length: None }
    }

    /// Takes one header line (as `read_line` gives it, with its line break).
    pub fn on_line(&mut self, line: &str) -> (r: ReadStep)
        ensures
            (final(self).content_length, r) == read_step(old(self).content_length, line@),
    {
        match read_header_line(line, self.content_length) {
            HeaderStep::EndOfHeaders => match self.content_length {
                Some(n) => ReadStep::ReadBody(n),
                None => ReadStep::NoMessage,
            },
            HeaderStep::Continue(length) => {
                self.content_length = length;
                ReadStep::NextLine
            },
        }
    }
}

/// The bytes that carry `value` as one message: its JSON text, framed.
pub fn encode_message(value: &JsonValue) -> (r: Vec<u8>)
    ensures
        r@ == frame(json_text(value@)),
{
    let body = encode_body(value);
    frame_message(body.as_slice())
}

/// What a reader gives back of a written message: a reader that starts
/// anew, fed the length line and then the blank line of the frame of
/// `body`, asks for a body of exactly `body`'s length, which is what follows
/// in the frame.
pub proof fn lemma_reader_reads_back(body: Seq<u8>)
    requires
        body.len() <= usize::MAX,
    ensures
        read_step(None, length_line(body.len())) == (Some(body.len() as usize), ReadStep::NextLine),
        read_step(Some(body.len() as usize), "\r\n"@) == (
            Some(body.len() as usize),
            ReadStep::ReadBody(body.len() as usize),
        ),
        frame(body).skip(frame(body).len() - body.len()) == body,
{
    lemma_frame_reads_back(body, None);
    let head = ascii_bytes(length_line(body.len())) + ascii_bytes("\r\n"@);
    assert(frame(body) =~= head + body);
    assert((head + body).skip(head.len() as int) =~= body);
}

} // verus!
