//! How messages are framed: header lines, an empty line, and the body.

use vstd::prelude::*;

use crate::text;

verus! {

/// A text without the line breaks at its end.
pub open spec fn unbroken(s: Seq<char>) -> Seq<char>
    decreases s.len(),
{
    if s.len() > 0 && (s.last() == '\r' || s.last() == '\n') {
        unbroken(s.drop_last())
    } else {
        s
    }
}

/// What is known of a message after some of its header lines.
#[derive(Clone, Copy, PartialEq, Eq, Structural, Debug)]
pub struct Headers {
    /// The length of the body, if a readable one was given.
    pub length: Option<usize>,
    /// Whether the header lines have ended.
    pub done: bool,
}

/// The length that a `Content-Length` line gives; nothing where it is no number
/// of this machine.
pub open spec fn given_length(line: Seq<char>) -> Option<usize> {
    let prefix = "Content-Length:"@;
    match text::number(
        text::trimmed(line.subrange(prefix.len() as int, line.len() as int)),
        usize::MAX as nat,
    ) {
        Some(n) => Some(n as usize),
        None => None,
    }
}

/// What is known after one more line: an empty line ends the headers, a length
/// replaces the one before it, and other lines say nothing.
pub open spec fn after_line(h: Headers, line: Seq<char>) -> Headers {
    let t = unbroken(line);
    if t.len() == 0 {
        Headers { length: h.length, done: true }
    } else if text::begins_with(t, "Content-Length:"@) {
        Headers { length: given_length(t), done: h.done }
    } else {
        h
    }
}

/// How many bytes a text has.
pub open spec fn byte_len(s: Seq<char>) -> nat {
    vstd::utf8::encode_utf8(s).len()
}

/// The header line for a body.
pub open spec fn length_line(body: Seq<char>) -> Seq<char> {
    "Content-Length: "@ + text::dec(byte_len(body)) + "\r\n"@
}

/// A message with its header.
pub open spec fn framed(body: Seq<char>) -> Seq<char> {
    length_line(body) + "\r\n"@ + body
}

impl Headers {
    /// Nothing read yet.
    pub fn new() -> (r: Headers)
        ensures
            r == (Headers { length: None, done: false }),
    {
        Headers { length: None, done: false }
    }

    /// Take one more header line, with its line break.
    pub fn read_line(&mut self, line: &str)
        ensures
            *final(self) == after_line(*old(self), line@),
    {
        let t = unbreak(line);
        if t.unicode_len() == 0 {
            self.done = true;
        } else if text::has_prefix(t, "Content-Length:") {
            proof {
                reveal_strlit("Content-Length:");
            }
            let rest = t.substring_char(15, t.unicode_len());
            self.length = text::parse_size(text::trim(rest));
        }
    }
}

/// A text without the line breaks at its end.
fn unbreak(s: &str) -> (r: &str)
    ensures
        r@ == unbroken(s@),
{
    let chars = text::chars_of(s);
    let mut n: usize = chars.len();
    assert(s@.take(n as int) =~= s@);
    while n > 0 && (chars[n - 1] == '\r' || chars[n - 1] == '\n')
        invariant
            n <= chars@.len(),
            chars@ == s@,
            unbroken(s@) == unbroken(s@.take(n as int)),
        decreases n,
    {
        assert(s@.take(n as int).drop_last() =~= s@.take(n - 1));
        n -= 1;
    }
    assert(s@.take(n as int) =~= s@.subrange(0, n as int));
    s.substring_char(0, n)
}

/// A message with its header.
pub fn frame(body: &str) -> (r: String)
    ensures
        r@ == framed(body@),
{
    let n: usize = body.as_bytes().len();
    let number = text::decimal(n as u64);
    let line = text::cat3("Content-Length: ", number.as_str(), "\r\n");
    text::cat3(line.as_str(), "\r\n", body)
}

/// What is known after the lines from the `i`-th on.
pub open spec fn after_lines(h: Headers, lines: Seq<Seq<char>>, i: int) -> Headers
    decreases lines.len() - i,
{
    if i < 0 || i >= lines.len() || h.done {
        h
    } else {
        after_lines(after_line(h, lines[i]), lines, i + 1)
    }
}

// ---------------------------------------------------------------------------
// Messages among bytes
// ---------------------------------------------------------------------------

/// What the bytes that have come in hold of a message.
#[verifier::ext_equal]
pub enum Message {
    /// Not all of it yet.
    Short,
    /// None: a header line is no text, or the headers give no length.
    Broken,
    /// All of it, with what comes behind.
    Whole { body: Seq<u8>, rest: Seq<u8> },
}

/// Where the line that begins at `i` ends, with its line break.
pub open spec fn line_end(bytes: Seq<u8>, i: int) -> Option<int>
    decreases bytes.len() - i,
{
    if i < 0 || i >= bytes.len() {
        None
    } else if bytes[i] == 10 {
        Some(i + 1)
    } else {
        line_end(bytes, i + 1)
    }
}

/// A line ends at the first line break.
pub proof fn lemma_line_end(bytes: Seq<u8>, i: int)
    ensures
        line_end(bytes, i) matches Some(e) ==> i < e <= bytes.len() && bytes[e - 1] == 10
            && forall|k: int| i <= k < e - 1 ==> bytes[k] != 10,
    decreases bytes.len() - i,
{
    if 0 <= i < bytes.len() && bytes[i] != 10 {
        lemma_line_end(bytes, i + 1);
    }
}

/// The message whose headers go on at `i`, after those that gave `h`.
pub open spec fn message_from(bytes: Seq<u8>, i: int, h: Headers) -> Message
    decreases bytes.len() - i,
{
    if h.done {
        match h.length {
            None => Message::Broken,
            Some(n) => if i + n <= bytes.len() {
                Message::Whole { body: bytes.subrange(i, i + n), rest: bytes.skip(i + n) }
            } else {
                Message::Short
            },
        }
    } else {
        proof {
            lemma_line_end(bytes, i);
        }
        match line_end(bytes, i) {
            None => Message::Short,
            Some(e) => {
                let line = bytes.subrange(i, e);
                if vstd::utf8::valid_utf8(line) {
                    message_from(bytes, e, after_line(h, vstd::utf8::decode_utf8(line)))
                } else {
                    Message::Broken
                }
            },
        }
    }
}

/// The message that bytes begin with: header lines, an empty line, and as many bytes
/// as the headers say.
pub open spec fn message(bytes: Seq<u8>) -> Message {
    message_from(bytes, 0, Headers { length: None, done: false })
}

/// What the bytes that have come in hold of a message.
#[derive(Debug)]
pub enum Received {
    /// Not all of it yet.
    Short,
    /// None.
    Broken,
    /// All of it, in the first `used` bytes.
    Whole { body: Vec<u8>, used: usize },
}

impl Received {
    /// What was received, with what comes behind it in `bytes`.
    pub open spec fn of(self, bytes: Seq<u8>) -> Message {
        match self {
            Received::Short => Message::Short,
            Received::Broken => Message::Broken,
            Received::Whole { body, used } => Message::Whole {
                body: body@,
                rest: bytes.skip(used as int),
            },
        }
    }
}

/// Calls `std::str::from_utf8`. Claimed of it: it succeeds exactly on UTF-8, and
/// gives the text that the bytes encode.
#[verifier::external_body]
fn decode(bytes: &[u8]) -> (r: Option<&str>)
    ensures
        r is Some == vstd::utf8::valid_utf8(bytes@),
        r is Some ==> r->0@ == vstd::utf8::decode_utf8(bytes@),
{
    std::str::from_utf8(bytes).ok()
}

/// Where the line that begins at `i` ends, with its line break.
fn find_line_end(bytes: &[u8], i: usize) -> (r: Option<usize>)
    requires
        i <= bytes@.len(),
    ensures
        match line_end(bytes@, i as int) {
            Some(e) => r is Some && r->0 == e,
            None => r is None,
        },
{
    let mut k: usize = i;
    while k < bytes.len()
        invariant
            i <= k <= bytes@.len(),
            line_end(bytes@, i as int) == line_end(bytes@, k as int),
        decreases bytes@.len() - k,
    {
        if bytes[k] == 10 {
            return Some(k + 1);
        }
        k += 1;
    }
    None
}

/// Read the message that bytes begin with.
pub fn read_message(bytes: &[u8]) -> (r: Received)
    ensures
        r.of(bytes@) == message(bytes@),
        r matches Received::Whole { used, .. } ==> used <= bytes@.len(),
{
    let mut headers = Headers::new();
    let mut i: usize = 0;
    while !headers.done
        invariant
            i <= bytes@.len(),
            message(bytes@) == message_from(bytes@, i as int, headers),
        decreases bytes@.len() - i + (if headers.done { 0int } else { 1 }),
    {
        proof {
            lemma_line_end(bytes@, i as int);
        }
        match find_line_end(bytes, i) {
            None => {
                return Received::Short;
            },
            Some(e) => {
                match decode(vstd::slice::slice_subrange(bytes, i, e)) {
                    Some(line) => {
                        headers.read_line(line);
                    },
                    None => {
                        return Received::Broken;
                    },
                }
                i = e;
            },
        }
    }
    match headers.length {
        None => Received::Broken,
        Some(n) => if n <= bytes.len() - i {
            let body = vstd::slice::slice_to_vec(vstd::slice::slice_subrange(bytes, i, i + n));
            Received::Whole { body, used: i + n }
        } else {
            Received::Short
        },
    }
}

proof fn lemma_encoded(a: Seq<char>, b: Seq<char>)
    ensures
        vstd::utf8::encode_utf8(a + b) == vstd::utf8::encode_utf8(a) + vstd::utf8::encode_utf8(b),
    decreases a.len(),
{
    if a.len() == 0 {
        assert(a + b =~= b);
        assert(vstd::utf8::encode_utf8(a) + vstd::utf8::encode_utf8(b)
            =~= vstd::utf8::encode_utf8(b));
    } else {
        lemma_encoded(a.drop_first(), b);
        assert((a + b).drop_first() =~= a.drop_first() + b);
        assert(vstd::utf8::encode_utf8(a + b) =~= vstd::utf8::encode_utf8(a)
            + vstd::utf8::encode_utf8(b));
    }
}

/// The line of ASCII characters that begins at `i` ends at its line break, and is
/// read as it was written.
proof fn lemma_line_read(bytes: Seq<u8>, i: int, line: Seq<char>)
    requires
        0 <= i,
        vstd::utf8::is_ascii_chars(line),
        line.len() > 0,
        line.last() == '\n',
        forall|k: int| 0 <= k < line.len() - 1 ==> line[k] != '\n',
        i + line.len() <= bytes.len(),
        bytes.subrange(i, i + line.len()) == vstd::utf8::encode_utf8(line),
    ensures
        line_end(bytes, i) == Some(i + line.len()),
        vstd::utf8::valid_utf8(bytes.subrange(i, i + line.len())),
        vstd::utf8::decode_utf8(bytes.subrange(i, i + line.len())) == line,
{
    let part = bytes.subrange(i, i + line.len());
    vstd::utf8::is_ascii_chars_encode_utf8(line);
    vstd::utf8::encode_utf8_valid_utf8(line);
    vstd::utf8::encode_utf8_decode_utf8(line);
    assert forall|k: int| 0 <= k < line.len() implies bytes[i + k] == line[k] as u8 by {
        assert(part[k] == bytes[i + k]);
    }
    lemma_ends_at(bytes, i, i + line.len() - 1, line);
}

proof fn lemma_ends_at(bytes: Seq<u8>, i: int, at: int, line: Seq<char>)
    requires
        0 <= i <= at < bytes.len(),
        at < line.len() + i,
        bytes[at] == 10,
        vstd::utf8::is_ascii_chars(line),
        at - i == line.len() - 1,
        forall|k: int| 0 <= k < line.len() - 1 ==> line[k] != '\n',
        forall|k: int| 0 <= k < line.len() ==> bytes[i + k] == #[trigger] line[k] as u8,
    ensures
        line_end(bytes, i) == Some(at + 1),
    decreases at - i,
{
    if i < at {
        assert(line[0] != '\n' && bytes[i + 0] == line[0] as u8);
        assert(0 <= line[0] as u32 && (line[0] as u32) < 128);
        let rest = line.drop_first();
        assert forall|k: int| 0 <= k < rest.len() implies bytes[i + 1 + k] == #[trigger] rest[k] as u8 by {
            assert(rest[k] == line[k + 1]);
            assert(bytes[i + (k + 1)] == line[k + 1] as u8);
        }
        assert forall|k: int| 0 <= k < rest.len() - 1 implies rest[k] != '\n' by {
            assert(rest[k] == line[k + 1]);
        }
        assert(vstd::utf8::is_ascii_chars(rest)) by {
            assert forall|k: int| 0 <= k < rest.len() implies '\0' <= #[trigger] rest[k] <= '\u{7f}' by {
                assert(rest[k] == line[k + 1]);
            }
        }
        lemma_ends_at(bytes, i + 1, at, rest);
    }
}

/// What is sent for a body: the header line and the empty line, which are ASCII and
/// break at their ends alone, and the bytes of the body.
proof fn lemma_sent(body: Seq<char>)
    ensures
        ({
            let line = length_line(body);
            let gap = "\r\n"@;
            &&& vstd::utf8::is_ascii_chars(line)
            &&& vstd::utf8::is_ascii_chars(gap)
            &&& line.len() > 0 && line.last() == '\n'
            &&& gap.len() == 2 && gap.last() == '\n' && gap[0] == '\r'
            &&& forall|k: int| 0 <= k < line.len() - 1 ==> line[k] != '\n'
            &&& vstd::utf8::encode_utf8(line).len() == line.len()
            &&& vstd::utf8::encode_utf8(gap).len() == 2
            &&& vstd::utf8::encode_utf8(framed(body)) == vstd::utf8::encode_utf8(line)
                + vstd::utf8::encode_utf8(gap) + vstd::utf8::encode_utf8(body)
        }),
{
    let line = length_line(body);
    let gap = "\r\n"@;
    reveal_strlit("\r\n");
    reveal_strlit("Content-Length: ");
    let digits = text::dec(byte_len(body));
    text::law_decimal_value(byte_len(body));
    assert forall|k: int| 0 <= k < line.len() implies '\0' <= #[trigger] line[k] <= '\u{7f}' && (k
        < line.len() - 1 ==> line[k] != '\n') by {
        let n = "Content-Length: "@.len() as int;
        if n <= k < n + digits.len() {
            assert(line[k] == digits[k - n]);
            assert(text::is_digit(digits[k - n]));
        }
    }
    vstd::utf8::is_ascii_chars_encode_utf8(line);
    vstd::utf8::is_ascii_chars_encode_utf8(gap);
    lemma_encoded(line + gap, body);
    lemma_encoded(line, gap);
}

/// The headers that are sent for a body, from the state of a reader that has read
/// nothing.
proof fn lemma_headers_sent(body: Seq<char>)
    requires
        byte_len(body) <= usize::MAX,
    ensures
        ({
            let h = Headers { length: None, done: false };
            let one = after_line(h, length_line(body));
            &&& !one.done
            &&& after_line(one, "\r\n"@) == (Headers {
                length: Some(byte_len(body) as usize),
                done: true,
            })
        }),
{
    let h = Headers { length: None, done: false };
    let line = length_line(body);
    let gap = "\r\n"@;
    law_frame_read_back(body, None);
    let lines = seq![line, gap];
    assert(lines[0] == line && lines[1] == gap);
    reveal_with_fuel(after_lines, 4);
    if after_line(h, line).done {
        // The headers would have ended without a length.
        assert(after_line(h, line).length is None);
    }
}

/// What is sent is read back: of the bytes of a message that is framed, whatever
/// comes behind them, the body is read, and what comes behind is left.
pub proof fn law_message_read_back(body: Seq<char>, rest: Seq<u8>)
    requires
        byte_len(body) <= usize::MAX,
    ensures
        message(vstd::utf8::encode_utf8(framed(body)) + rest) == (Message::Whole {
            body: vstd::utf8::encode_utf8(body),
            rest,
        }),
{
    let line = length_line(body);
    let gap = "\r\n"@;
    let bytes = vstd::utf8::encode_utf8(framed(body)) + rest;
    lemma_sent(body);
    lemma_headers_sent(body);
    let a = line.len() as int;
    let b = a + 2;
    assert(bytes.subrange(0, a) =~= vstd::utf8::encode_utf8(line));
    assert(bytes.subrange(a, b) =~= vstd::utf8::encode_utf8(gap));
    lemma_line_read(bytes, 0, line);
    lemma_line_read(bytes, a, gap);
    let h = Headers { length: None, done: false };
    let one = after_line(h, line);
    let two = after_line(one, gap);
    assert(message_from(bytes, 0, h) == message_from(bytes, a, one));
    assert(message_from(bytes, a, one) == message_from(bytes, b, two));
    assert(bytes.subrange(b, b + byte_len(body)) =~= vstd::utf8::encode_utf8(body));
    assert(bytes.skip(b + byte_len(body)) =~= rest);
}

proof fn lemma_no_end(bytes: Seq<u8>, i: int)
    requires
        0 <= i,
        forall|k: int| i <= k < bytes.len() ==> bytes[k] != 10,
    ensures
        line_end(bytes, i) is None,
    decreases bytes.len() - i,
{
    if i < bytes.len() {
        lemma_no_end(bytes, i + 1);
    }
}

/// A message that has not come in whole is waited for: the first bytes of one that
/// is framed, up to any place in it, are neither a message nor broken.
pub proof fn law_part_of_a_message_waits(body: Seq<char>, n: int)
    requires
        byte_len(body) <= usize::MAX,
        0 <= n < vstd::utf8::encode_utf8(framed(body)).len(),
    ensures
        message(vstd::utf8::encode_utf8(framed(body)).take(n)) == Message::Short,
{
    let line = length_line(body);
    let gap = "\r\n"@;
    let all = vstd::utf8::encode_utf8(framed(body));
    let bytes = all.take(n);
    lemma_sent(body);
    lemma_headers_sent(body);
    vstd::utf8::is_ascii_chars_encode_utf8(line);
    vstd::utf8::is_ascii_chars_encode_utf8(gap);
    let a = line.len() as int;
    let b = a + 2;
    let h = Headers { length: None, done: false };
    let one = after_line(h, line);
    let two = after_line(one, gap);
    assert forall|k: int| 0 <= k < a implies all[k] == line[k] as u8 by {
        assert(all[k] == vstd::utf8::encode_utf8(line)[k]);
    }
    assert(all[a] == vstd::utf8::encode_utf8(gap)[0]);
    if n < a {
        assert forall|k: int| 0 <= k < bytes.len() implies bytes[k] != 10 by {
            assert(bytes[k] == line[k] as u8 && line[k] != '\n');
            assert('\0' <= line[k] <= '\u{7f}');
        }
        lemma_no_end(bytes, 0);
    } else {
        assert(bytes.subrange(0, a) =~= vstd::utf8::encode_utf8(line));
        lemma_line_read(bytes, 0, line);
        assert(message_from(bytes, 0, h) == message_from(bytes, a, one));
        if n < b {
            assert forall|k: int| a <= k < bytes.len() implies bytes[k] != 10 by {
                assert(k == a && bytes[k] == all[a]);
                assert(gap[0] as u8 == 13);
            }
            lemma_no_end(bytes, a);
        } else {
            assert(bytes.subrange(a, b) =~= vstd::utf8::encode_utf8(gap));
            lemma_line_read(bytes, a, gap);
            assert(message_from(bytes, a, one) == message_from(bytes, b, two));
        }
    }
}

/// Where nothing has come in there is no message yet, and where the headers end
/// without a length there is none.
pub proof fn law_no_message(bytes: Seq<u8>, i: int)
    ensures
        message(Seq::empty()) == Message::Short,
        message_from(bytes, i, Headers { length: None, done: true }) == Message::Broken,
{
}

/// Reading gives back what was written: whatever length was known before, the
/// header of a message ends, and the length that it gives is the number of bytes
/// of the body.
pub proof fn law_frame_read_back(body: Seq<char>, before: Option<usize>)
    requires
        byte_len(body) <= usize::MAX,
    ensures
        framed(body) == length_line(body) + "\r\n"@ + body,
        after_lines(
            Headers { length: before, done: false },
            seq![length_line(body), "\r\n"@],
            0,
        ) == (Headers { length: Some(byte_len(body) as usize), done: true }),
{
    let n = byte_len(body);
    let line = length_line(body);
    let digits = text::dec(n);
    let head = "Content-Length: "@ + digits;
    reveal_strlit("\r\n");
    reveal_strlit("Content-Length:");
    reveal_strlit("Content-Length: ");
    text::law_decimal_value(n);
    text::law_number_round_trip(n, usize::MAX as nat);
    assert(text::is_digit(digits[0]));
    assert(text::is_digit(digits[digits.len() - 1]));
    // The line without its break is the prefix and the digits.
    assert(line.drop_last() =~= head + seq!['\r']);
    assert(line.drop_last().drop_last() =~= head);
    assert(head.last() == digits.last());
    reveal_with_fuel(unbroken, 4);
    assert(unbroken(line) == head);
    assert(text::begins_with(head, "Content-Length:"@)) by {
        assert(head.subrange(0, 15) =~= "Content-Length:"@);
    }
    // What follows the prefix is a space and the digits.
    let rest = head.subrange(15, head.len() as int);
    assert(rest =~= seq![' '] + digits);
    assert(rest.drop_first() =~= digits);
    reveal_with_fuel(text::trimmed_start, 3);
    assert(text::trimmed_start(rest) == digits);
    assert(text::trimmed(rest) == digits);
    let h = Headers { length: before, done: false };
    let lines = seq![line, "\r\n"@];
    assert(after_line(h, line) == (Headers { length: Some(n as usize), done: false }));
    let empty = "\r\n"@;
    assert(empty.drop_last().drop_last() =~= Seq::<char>::empty());
    assert(unbroken(empty) == Seq::<char>::empty());
    reveal_with_fuel(after_lines, 4);
}

} // verus!
