use vstd::prelude::*;
use vstd::utf8::{
    decode_utf8, encode_utf8, encode_utf8_decode_utf8, is_ascii_chars, is_ascii_chars_encode_utf8,
    valid_utf8,
};

use crate::connection::{Reply, ReplyView, SingleStrings};
use crate::error::{ErrorKind, RedisError};
use crate::numbers::{
    unsigned_text, all_digits, digits_of, int_text, lemma_digits_of_shape, lemma_parse_int_text, parse_bounded,
    parse_in_range, signed_value,
};
use crate::protocol::utf8_string;
use crate::RedisResult;

verus! {

pub const CR: u8 = 13;

pub const LF: u8 = 10;

pub const STATUS_PREFIX: u8 = 43;

pub const ERROR_PREFIX: u8 = 45;

pub const INTEGER_PREFIX: u8 = 58;

pub const BULK_PREFIX: u8 = 36;

pub const ARRAY_PREFIX: u8 = 42;

pub open spec fn crlf() -> Seq<u8> {
    seq![CR, LF]
}

/// The text that `String::from_utf8_lossy` makes of a byte sequence.
pub uninterp spec fn lossy_text(b: Seq<u8>) -> Seq<char>;

/// Relies on `String::from_utf8_lossy`: the text of the bytes, which is their
/// UTF-8 decoding where they are valid UTF-8.
#[verifier::external_body]
fn text_of_bytes(b: &[u8]) -> (r: String)
    ensures
        r@ == lossy_text(b@),
        valid_utf8(b@) ==> r@ == decode_utf8(b@),
{
    String::from_utf8_lossy(b).into_owned()
}

/// The first line feed in `s` at or after `from`.
pub open spec fn line_end(s: Seq<u8>, from: int) -> Option<int>
    decreases s.len() - from,
{
    if from < 0 || from >= s.len() {
        None
    } else if s[from] == LF {
        Some(from)
    } else {
        line_end(s, from + 1)
    }
}

/// Whether the line `s[start..=end]` is a well-formed header line: a type
/// byte, a payload, and a `\r\n` terminator.
pub open spec fn header_ok(s: Seq<u8>, start: int, end: int) -> bool {
    end - start + 1 >= 3 && s[end - 1] == CR
}

/// The payload of the header line `s[start..=end]`.
pub open spec fn header_payload(s: Seq<u8>, start: int, end: int) -> Seq<u8> {
    s.subrange(start + 1, end - 1)
}


/// The recognised status token that a `+` line's payload names.
pub open spec fn status_of(p: Seq<u8>) -> Option<SingleStrings> {
    if p == seq![79u8, 75u8] {
        Some(SingleStrings::Okay)
    } else if p == seq![80u8, 79u8, 78u8, 71u8] {
        Some(SingleStrings::Pong)
    } else if p == seq![115u8, 116u8, 114u8, 105u8, 110u8, 103u8] {
        Some(SingleStrings::String)
    } else if p == seq![108u8, 105u8, 115u8, 116u8] {
        Some(SingleStrings::List)
    } else if p == seq![115u8, 101u8, 116u8] {
        Some(SingleStrings::UnorderedSet)
    } else {
        None
    }
}

/// The prefix of an error line that signals rejected credentials: `WRONGPASS`.
pub open spec fn auth_failure_prefix() -> Seq<u8> {
    seq![87u8, 82u8, 79u8, 78u8, 71u8, 80u8, 65u8, 83u8, 83u8]
}

/// The kind of error that an error line with payload `p` stands for.
pub open spec fn server_error_kind(p: Seq<u8>) -> ErrorKind {
    if p.len() >= 9 && p.subrange(0, 9) == auth_failure_prefix() {
        ErrorKind::AuthenticationFailed
    } else {
        ErrorKind::FromServer
    }
}

/// What reading one reply, or one part of one, from a byte sequence gives.
pub enum Step {
    /// A value, and the position just after it.
    Done(ReplyView, int),
    /// The bytes end before the reply does.
    Incomplete,
    /// The bytes do not form a valid reply.
    Malformed,
    /// An error line, with its payload.
    ServerError(Seq<u8>),
}

/// What reading a run of array elements gives.
pub enum Elements {
    Done(Seq<ReplyView>, int),
    Incomplete,
    Malformed,
}

pub open spec fn min_i64() -> int {
    i64::MIN as int
}

pub open spec fn max_i64() -> int {
    i64::MAX as int
}

/// The bytes `s[start..end]`.
pub fn copy_range(s: &[u8], start: usize, end: usize) -> (r: Vec<u8>)
    requires
        start <= end <= s@.len(),
    ensures
        r@ == s@.subrange(start as int, end as int),
{
    let mut out: Vec<u8> = Vec::with_capacity(end - start);
    let mut i = start;
    while i < end
        invariant
            start <= i <= end <= s@.len(),
            out@ == s@.subrange(start as int, i as int),
        decreases end - i,
    {
        out.push(s[i]);
        i = i + 1;
        assert(out@ =~= s@.subrange(start as int, i as int));
    }
    out
}

/// The body of a bulk string of length `len` that starts at `body`.
pub open spec fn bulk_body(s: Seq<u8>, body: int, len: int) -> Step {
    if len < 0 {
        Step::Done(ReplyView::Nil, body)
    } else if s.len() < body + len + 2 {
        Step::Incomplete
    } else {
        Step::Done(ReplyView::Bulk(s.subrange(body, body + len)), body + len + 2)
    }
}

/// One array element, a bulk string, whose header line starts at `pos`.
pub open spec fn element_at(s: Seq<u8>, pos: int) -> Step {
    match line_end(s, pos) {
        None => Step::Incomplete,
        Some(end) => if !header_ok(s, pos, end) || s[pos] != BULK_PREFIX {
            Step::Malformed
        } else {
            match parse_in_range(header_payload(s, pos, end), true, min_i64(), max_i64()) {
                None => Step::Malformed,
                Some(len) => bulk_body(s, end + 1, len),
            }
        },
    }
}

/// `count` array elements, the first of which starts at `pos`.
pub open spec fn elements_from(s: Seq<u8>, pos: int, count: nat) -> Elements
    decreases count,
{
    if count == 0 {
        Elements::Done(Seq::empty(), pos)
    } else {
        match element_at(s, pos) {
            Step::Done(v, next) => prepend(v, elements_from(s, next, (count - 1) as nat)),
            Step::Incomplete => Elements::Incomplete,
            _ => Elements::Malformed,
        }
    }
}

pub open spec fn prepend(v: ReplyView, rest: Elements) -> Elements {
    match rest {
        Elements::Done(vs, end) => Elements::Done(seq![v] + vs, end),
        other => other,
    }
}

pub open spec fn prepend_all(vs: Seq<ReplyView>, rest: Elements) -> Elements {
    match rest {
        Elements::Done(ws, end) => Elements::Done(vs + ws, end),
        other => other,
    }
}

/// The one reply at the start of `s`.
pub open spec fn reply_at(s: Seq<u8>) -> Step {
    match line_end(s, 0) {
        None => Step::Incomplete,
        Some(end) => if !header_ok(s, 0, end) {
            Step::Malformed
        } else {
            let p = header_payload(s, 0, end);
            let next = end + 1;
            if s[0] == STATUS_PREFIX {
                match status_of(p) {
                    Some(t) => Step::Done(ReplyView::Status(t), next),
                    None => Step::Malformed,
                }
            } else if s[0] == ERROR_PREFIX {
                Step::ServerError(p)
            } else if s[0] == INTEGER_PREFIX {
                Step::Done(ReplyView::Integer(p), next)
            } else if s[0] == BULK_PREFIX {
                match parse_in_range(p, true, min_i64(), max_i64()) {
                    None => Step::Malformed,
                    Some(len) => bulk_body(s, next, len),
                }
            } else if s[0] == ARRAY_PREFIX {
                match parse_in_range(p, false, 0, u64::MAX as int) {
                    None => Step::Malformed,
                    Some(count) => match elements_from(s, next, count as nat) {
                        Elements::Done(vs, after) => Step::Done(ReplyView::Array(vs), after),
                        Elements::Incomplete => Step::Incomplete,
                        Elements::Malformed => Step::Malformed,
                    },
                }
            } else {
                Step::Malformed
            }
        },
    }
}

/// Whether `b` is one of the five reply type bytes.
pub open spec fn known_prefix(b: u8) -> bool {
    b == STATUS_PREFIX || b == ERROR_PREFIX || b == INTEGER_PREFIX || b == BULK_PREFIX || b == ARRAY_PREFIX
}

/// Whether `s` starts with a well-formed header line whose type byte is not a
/// reply type.
pub open spec fn unknown_prefix_line(s: Seq<u8>) -> bool {
    match line_end(s, 0) {
        Some(end) => header_ok(s, 0, end) && !known_prefix(s[0]),
        None => false,
    }
}

/// Whether a decoding outcome is the one that `st` describes.
pub open spec fn outcome_matches(r: RedisResult<Option<(Reply, usize)>>, st: Step) -> bool {
    match st {
        Step::Done(v, n) => r matches Ok(Some((rep, m))) && rep@ == v && m == n,
        Step::Incomplete => r matches Ok(None),
        Step::Malformed => r matches Err(e) && e.kind() == ErrorKind::ResponseError,
        Step::ServerError(p) => r matches Err(e) && e.kind() == server_error_kind(p)
            && e.detail_text() == Some(lossy_text(p))
            && (valid_utf8(p) ==> e.detail_text() == Some(decode_utf8(p))),
    }
}

/// The first line feed in `s` at or after `from`.
fn find_line_end(s: &[u8], from: usize) -> (r: Option<usize>)
    ensures
        match r {
            Some(i) => line_end(s@, from as int) == Some(i as int) && from <= i < s@.len()
                && s@[i as int] == LF,
            None => line_end(s@, from as int) is None,
        },
{
    let mut i = from;
    while i < s.len()
        invariant
            from <= i,
            line_end(s@, from as int) == line_end(s@, i as int),
        decreases s@.len() - i,
    {
        if s[i] == LF {
            return Some(i);
        }
        i = i + 1;
    }
    None
}

fn malformed(what: &str) -> (r: RedisResult<Option<(Reply, usize)>>)
    ensures
        outcome_matches(r, Step::Malformed),
{
    Err(RedisError::custom(ErrorKind::ResponseError, what))
}

/// The ASCII code of the lower-case hexadecimal digit for `n`, below 16.
pub open spec fn hex_digit(n: int) -> u8 {
    if n < 10 {
        (48 + n) as u8
    } else {
        (87 + n) as u8
    }
}

/// `invalid prefix 0x` followed by the byte in two hexadecimal digits.
pub open spec fn invalid_prefix_bytes(b: u8) -> Seq<u8> {
    seq![105u8, 110u8, 118u8, 97u8, 108u8, 105u8, 100u8, 32u8, 112u8, 114u8, 101u8, 102u8, 105u8, 120u8, 32u8, 48u8, 120u8]
        + seq![hex_digit((b / 16) as int), hex_digit((b % 16) as int)]
}

/// The description of the error for a reply line whose type byte is `b`.
pub open spec fn invalid_prefix_message(b: u8) -> Seq<char> {
    invalid_prefix_bytes(b).map_values(|x: u8| x as char)
}

fn hex_digit_exec(n: u8) -> (r: u8)
    requires
        n < 16,
    ensures
        r == hex_digit(n as int),
{
    if n < 10 {
        48 + n
    } else {
        87 + n
    }
}

/// The `ResponseError` for a reply line whose type byte is `b`.
fn invalid_prefix(b: u8) -> (r: RedisResult<Option<(Reply, usize)>>)
    ensures
        r matches Err(e) && e.kind() == ErrorKind::ResponseError && e.detail_text() == Some(
            invalid_prefix_message(b),
        ),
{
    let text: [u8; 17] = [105, 110, 118, 97, 108, 105, 100, 32, 112, 114, 101, 102, 105, 120, 32, 48, 120];
    let mut msg: Vec<u8> = Vec::new();
    msg.extend_from_slice(&text);
    msg.push(hex_digit_exec(b / 16));
    msg.push(hex_digit_exec(b % 16));
    proof {
        let chars = invalid_prefix_message(b);
        assert(msg@ =~= invalid_prefix_bytes(b));
        assert forall|i: int| 0 <= i < chars.len() implies '\0' <= #[trigger] chars[i] <= '\u{7f}' by {
            assert(msg@[i] < 128);
        }
        assert(is_ascii_chars(chars));
        is_ascii_chars_encode_utf8(chars);
        assert forall|i: int| 0 <= i < chars.len() implies chars[i] as u8 == msg@[i] by {
            assert(msg@[i] < 128);
        }
        assert(encode_utf8(chars) =~= msg@);
        encode_utf8_decode_utf8(chars);
        vstd::utf8::encode_utf8_valid_utf8(chars);
    }
    match utf8_string(msg) {
        Some(message) => Err(RedisError::custom(ErrorKind::ResponseError, message.as_str())),
        None => Err(RedisError::custom(ErrorKind::ResponseError, "invalid reply prefix")),
    }
}

/// The body of a bulk string of length `len` that starts at `body`.
fn read_bulk_body(s: &[u8], body: usize, len: i64) -> (r: RedisResult<Option<(Reply, usize)>>)
    requires
        body <= s@.len(),
    ensures
        outcome_matches(r, bulk_body(s@, body as int, len as int)),
        r matches Ok(Some((_, n))) ==> body <= n <= s@.len(),
{
    if len < 0 {
        return Ok(Some((Reply::Nil, body)));
    }
    let avail = s.len() - body;
    if avail < 2 || len as u64 > (avail - 2) as u64 {
        return Ok(None);
    }
    let n = len as usize;
    let content = copy_range(s, body, body + n);
    Ok(Some((Reply::BulkStrings(content), body + n + 2)))
}

/// Reads `count` bulk-string elements from the header line at `pos` on.
fn read_array_elements(s: &[u8], pos: usize, count: u64) -> (r: RedisResult<Option<(Reply, usize)>>)
    requires
        pos <= s@.len(),
    ensures
        outcome_matches(
            r,
            match elements_from(s@, pos as int, count as nat) {
                Elements::Done(vs, after) => Step::Done(ReplyView::Array(vs), after),
                Elements::Incomplete => Step::Incomplete,
                Elements::Malformed => Step::Malformed,
            },
        ),
{
    let mut items: Vec<Reply> = Vec::new();
    let ghost mut vs: Seq<ReplyView> = Seq::empty();
    let mut at = pos;
    let mut k: u64 = 0;
    while k < count
        invariant
            pos <= at <= s@.len(),
            k <= count,
            vs.len() == items@.len(),
            forall|i: int| 0 <= i < vs.len() ==> vs[i] == #[trigger] items@[i]@,
            elements_from(s@, pos as int, count as nat) == prepend_all(
                vs,
                elements_from(s@, at as int, (count - k) as nat),
            ),
        decreases count - k,
    {
        let ghost before = elements_from(s@, at as int, (count - k) as nat);
        match read_element(s, at) {
            Ok(Some((rep, after))) => {
                proof {
                    let rest = elements_from(s@, after as int, (count - k - 1) as nat);
                    assert(before == prepend(rep@, rest));
                    match rest {
                        Elements::Done(ws, end) => {
                            assert(vs + (seq![rep@] + ws) =~= vs.push(rep@) + ws);
                        },
                        _ => {},
                    }
                    vs = vs.push(rep@);
                }
                items.push(rep);
                at = after;
                k = k + 1;
            },
            Ok(None) => {
                return Ok(None);
            },
            Err(e) => {
                return Err(e);
            },
        }
    }
    proof {
        assert(vs + Seq::<ReplyView>::empty() =~= vs);
    }
    let reply = Reply::Arrays(items);
    assert(reply@ == ReplyView::Array(vs)) by {
        let ws = reply@->Array_0;
        assert(ws.len() == vs.len());
        assert forall|i: int| 0 <= i < vs.len() implies ws[i] == vs[i] by {
            assert(vs[i] == items@[i]@);
        }
        assert(ws =~= vs);
    }
    Ok(Some((reply, at)))
}

/// One array element, a bulk string, whose header line starts at `pos`.
fn read_element(s: &[u8], pos: usize) -> (r: RedisResult<Option<(Reply, usize)>>)
    requires
        pos <= s@.len(),
    ensures
        outcome_matches(r, element_at(s@, pos as int)),
        r matches Ok(Some((_, n))) ==> pos < n <= s@.len(),
{
    match find_line_end(s, pos) {
        None => Ok(None),
        Some(end) => {
            if end - pos < 2 || s[end - 1] != CR || s[pos] != BULK_PREFIX {
                return malformed("invalid array element");
            }
            let header = copy_range(s, pos + 1, end - 1);
            match parse_bounded(header.as_slice(), true, 0x8000_0000_0000_0000, 0x7fff_ffff_ffff_ffff) {
                None => malformed("invalid bulk string length"),
                Some((neg, m)) => {
                    let len = signed_value(neg, m) as i64;
                    read_bulk_body(s, end + 1, len)
                },
            }
        },
    }
}

/// Decodes the one reply at the start of `input`, the bytes received so far.
///
/// Gives the reply and the number of bytes it took; `None` where `input` ends
/// before the reply does; a `ResponseError` where the bytes do not form a
/// reply; and, for an error line, a `FromServer` error (an
/// `AuthenticationFailed` one where it starts with `WRONGPASS`) carrying the
/// line's text. A reply is never returned for an error line. A line with an
/// unknown type byte gives a `ResponseError` whose description names the byte.
pub fn decode(input: &[u8]) -> (r: RedisResult<Option<(Reply, usize)>>)
    ensures
        outcome_matches(r, reply_at(input@)),
        unknown_prefix_line(input@) ==> (r matches Err(e) && e.detail_text() == Some(
            invalid_prefix_message(input@[0]),
        )),
{
    let s = input;
    let end = match find_line_end(s, 0) {
        None => return Ok(None),
        Some(end) => end,
    };
    if end < 2 || s[end - 1] != CR {
        return malformed("empty or unterminated reply line");
    }
    let payload = copy_range(s, 1, end - 1);
    let next = end + 1;
    let prefix = s[0];
    if prefix == STATUS_PREFIX {
        read_status(payload.as_slice(), next)
    } else if prefix == ERROR_PREFIX {
        let text = text_of_bytes(payload.as_slice());
        let kind = if payload.len() >= 9 && starts_with_auth_failure(payload.as_slice()) {
            ErrorKind::AuthenticationFailed
        } else {
            ErrorKind::FromServer
        };
        Err(RedisError::custom(kind, text.as_str()))
    } else if prefix == INTEGER_PREFIX {
        Ok(Some((Reply::Integers(payload), next)))
    } else if prefix == BULK_PREFIX {
        match parse_bounded(payload.as_slice(), true, 0x8000_0000_0000_0000, 0x7fff_ffff_ffff_ffff) {
            None => malformed("invalid bulk string length"),
            Some((neg, m)) => {
                let len = signed_value(neg, m) as i64;
                read_bulk_body(s, next, len)
            },
        }
    } else if prefix == ARRAY_PREFIX {
        match parse_bounded(payload.as_slice(), false, 0, 0xffff_ffff_ffff_ffff) {
            None => malformed("invalid array length"),
            Some((_, m)) => read_array_elements(s, next, m as u64),
        }
    } else {
        invalid_prefix(prefix)
    }
}

/// Whether `p` starts with `WRONGPASS`.
fn starts_with_auth_failure(p: &[u8]) -> (r: bool)
    requires
        p@.len() >= 9,
    ensures
        r == (p@.subrange(0, 9) == auth_failure_prefix()),
{
    let expected: [u8; 9] = [87, 82, 79, 78, 71, 80, 65, 83, 83];
    let mut i: usize = 0;
    while i < 9
        invariant
            i <= 9,
            p@.len() >= 9,
            expected@ == auth_failure_prefix(),
            p@.subrange(0, i as int) == auth_failure_prefix().subrange(0, i as int),
        decreases 9 - i,
    {
        if p[i] != expected[i] {
            assert(p@.subrange(0, 9)[i as int] != auth_failure_prefix()[i as int]);
            return false;
        }
        i = i + 1;
        assert(p@.subrange(0, i as int) =~= auth_failure_prefix().subrange(0, i as int));
    }
    assert(p@.subrange(0, 9) =~= auth_failure_prefix());
    true
}

/// The status reply whose payload is `p`, ending at `next`.
fn read_status(p: &[u8], next: usize) -> (r: RedisResult<Option<(Reply, usize)>>)
    ensures
        outcome_matches(
            r,
            match status_of(p@) {
                Some(t) => Step::Done(ReplyView::Status(t), next as int),
                None => Step::Malformed,
            },
        ),
{
    let token = if bytes_equal(p, &[79, 75]) {
        SingleStrings::Okay
    } else if bytes_equal(p, &[80, 79, 78, 71]) {
        SingleStrings::Pong
    } else if bytes_equal(p, &[115, 116, 114, 105, 110, 103]) {
        SingleStrings::String
    } else if bytes_equal(p, &[108, 105, 115, 116]) {
        SingleStrings::List
    } else if bytes_equal(p, &[115, 101, 116]) {
        SingleStrings::UnorderedSet
    } else {
        return malformed("unrecognised status");
    };
    Ok(Some((Reply::SingleStrings(token), next)))
}

/// Whether two byte sequences are equal.
pub fn bytes_equal(a: &[u8], b: &[u8]) -> (r: bool)
    ensures
        r == (a@ == b@),
{
    if a.len() != b.len() {
        return false;
    }
    let mut i: usize = 0;
    while i < a.len()
        invariant
            i <= a@.len() == b@.len(),
            a@.subrange(0, i as int) == b@.subrange(0, i as int),
        decreases a@.len() - i,
    {
        if a[i] != b[i] {
            return false;
        }
        i = i + 1;
        assert(a@.subrange(0, i as int) =~= b@.subrange(0, i as int));
    }
    assert(a@ =~= a@.subrange(0, i as int));
    assert(b@ =~= b@.subrange(0, i as int));
    true
}

/// The wire form of a bulk string: `$<len>\r\n<content>\r\n`.
pub open spec fn bulk_string(content: Seq<u8>) -> Seq<u8> {
    seq![BULK_PREFIX] + int_text(content.len() as int) + crlf() + content + crlf()
}

/// The wire form of a nil bulk string: `$-1\r\n`.
pub open spec fn nil_bulk_string() -> Seq<u8> {
    seq![BULK_PREFIX, 45u8, 49u8] + crlf()
}

/// Frames `content` as a bulk string.
pub fn encode_bulk_string(content: &[u8]) -> (r: Vec<u8>)
    ensures
        r@ == bulk_string(content@),
{
    let mut out: Vec<u8> = Vec::new();
    out.push(BULK_PREFIX);
    let mut len_text = unsigned_text(content.len() as u128);
    out.append(&mut len_text);
    out.push(CR);
    out.push(LF);
    out.extend_from_slice(content);
    out.push(CR);
    out.push(LF);
    assert(out@ =~= bulk_string(content@));
    out
}

/// The parts laid end to end.
pub open spec fn concat_all(parts: Seq<Seq<u8>>) -> Seq<u8>
    decreases parts.len(),
{
    if parts.len() == 0 {
        Seq::empty()
    } else {
        parts[0] + concat_all(parts.drop_first())
    }
}

/// The wire forms of the contents, each as a bulk string.
pub open spec fn bulk_strings(contents: Seq<Seq<u8>>) -> Seq<Seq<u8>> {
    contents.map_values(|c: Seq<u8>| bulk_string(c))
}

/// The wire form of an array of bulk strings: `*<count>\r\n` and the elements.
pub open spec fn array_of_bulk_strings(contents: Seq<Seq<u8>>) -> Seq<u8> {
    seq![ARRAY_PREFIX] + int_text(contents.len() as int) + crlf() + concat_all(bulk_strings(contents))
}

/// The wire form of one array element: a bulk string, or nil for `None`.
pub open spec fn element_wire(e: Option<Seq<u8>>) -> Seq<u8> {
    match e {
        Some(c) => bulk_string(c),
        None => nil_bulk_string(),
    }
}

/// The reply one array element decodes as.
pub open spec fn element_view(e: Option<Seq<u8>>) -> ReplyView {
    match e {
        Some(c) => ReplyView::Bulk(c),
        None => ReplyView::Nil,
    }
}

pub open spec fn element_wires(es: Seq<Option<Seq<u8>>>) -> Seq<Seq<u8>> {
    es.map_values(|e: Option<Seq<u8>>| element_wire(e))
}

pub open spec fn element_views(es: Seq<Option<Seq<u8>>>) -> Seq<ReplyView> {
    es.map_values(|e: Option<Seq<u8>>| element_view(e))
}

/// The wire form of an array reply: `*<count>\r\n` and the elements.
pub open spec fn array_wire(es: Seq<Option<Seq<u8>>>) -> Seq<u8> {
    seq![ARRAY_PREFIX] + int_text(es.len() as int) + crlf() + concat_all(element_wires(es))
}

pub open spec fn no_line_feed(p: Seq<u8>) -> bool {
    forall|i: int| 0 <= i < p.len() ==> #[trigger] p[i] != LF
}

proof fn lemma_line_end_skip(s: Seq<u8>, from: int, to: int)
    requires
        0 <= from <= to <= s.len(),
        forall|i: int| from <= i < to ==> #[trigger] s[i] != LF,
    ensures
        line_end(s, from) == line_end(s, to),
    decreases to - from,
{
    if from < to {
        lemma_line_end_skip(s, from + 1, to);
    }
}

/// A header line `b`, `p`, `\r\n` at `pos` ends where it should and has `p`
/// for payload.
proof fn lemma_header(s: Seq<u8>, pos: int, b: u8, p: Seq<u8>)
    requires
        0 <= pos,
        pos + p.len() + 3 <= s.len(),
        s.subrange(pos, pos + p.len() + 3) == seq![b] + p + crlf(),
        b != LF,
        no_line_feed(p),
    ensures
        line_end(s, pos) == Some(pos + p.len() + 2),
        header_ok(s, pos, pos + p.len() + 2),
        header_payload(s, pos, pos + p.len() + 2) == p,
        s[pos] == b,
{
    let h = seq![b] + p + crlf();
    let end = pos + p.len() + 2;
    assert forall|i: int| pos <= i < end implies #[trigger] s[i] != LF by {
        assert(s[i] == s.subrange(pos, pos + p.len() + 3)[i - pos]);
        if i > pos && i < end - 1 {
            assert(h[i - pos] == p[i - pos - 1]);
        }
    }
    assert(s[end] == s.subrange(pos, pos + p.len() + 3)[end - pos]);
    lemma_line_end_skip(s, pos, end);
    assert(s[pos] == h[0]);
    assert(s[end - 1] == h[end - 1 - pos]);
    assert(header_payload(s, pos, end) =~= p) by {
        assert forall|i: int| 0 <= i < p.len() implies header_payload(s, pos, end)[i] == p[i] by {
            assert(s[pos + 1 + i] == s.subrange(pos, pos + p.len() + 3)[1 + i]);
        }
    }
}

pub proof fn lemma_int_text_no_line_feed(i: int)
    ensures
        no_line_feed(int_text(i)),
        int_text(i).len() >= 1,
{
    if i < 0 {
        lemma_digits_of_shape((-i) as nat);
        let t = int_text(i);
        assert forall|k: int| 0 <= k < t.len() implies #[trigger] t[k] != LF by {
            if k > 0 {
                assert(t[k] == digits_of((-i) as nat)[k - 1]);
            }
        }
    } else {
        lemma_digits_of_shape(i as nat);
        assert(all_digits(int_text(i)));
    }
}

/// A bulk string at `pos` reads back as its content.
pub proof fn lemma_element_bulk(s: Seq<u8>, pos: int, c: Seq<u8>)
    requires
        0 <= pos,
        pos + bulk_string(c).len() <= s.len(),
        s.subrange(pos, pos + bulk_string(c).len()) == bulk_string(c),
        c.len() <= i64::MAX,
    ensures
        element_at(s, pos) == Step::Done(ReplyView::Bulk(c), pos + bulk_string(c).len()),
        bulk_header_reads(s, pos, c),
{
    let t = int_text(c.len() as int);
    lemma_int_text_no_line_feed(c.len() as int);
    lemma_parse_int_text(c.len() as int, true);
    let b = bulk_string(c);
    let hl = t.len() + 3int;
    assert(s.subrange(pos, pos + hl) =~= seq![BULK_PREFIX] + t + crlf()) by {
        assert(s.subrange(pos, pos + hl) =~= b.subrange(0, hl));
        assert(b.subrange(0, hl) =~= seq![BULK_PREFIX] + t + crlf());
    }
    lemma_header(s, pos, BULK_PREFIX, t);
    assert(s.subrange(pos + hl, pos + hl + c.len() as int) =~= c) by {
        assert(s.subrange(pos + hl, pos + hl + c.len() as int) =~= b.subrange(hl, hl + c.len() as int));
    }
}

/// What the lemma about a bulk string's header also gives: its header line
/// reads as the content's length.
pub open spec fn bulk_header_reads(s: Seq<u8>, pos: int, c: Seq<u8>) -> bool {
    let end = pos + int_text(c.len() as int).len() + 2;
    &&& line_end(s, pos) == Some(end)
    &&& header_ok(s, pos, end)
    &&& parse_in_range(header_payload(s, pos, end), true, min_i64(), max_i64()) == Some(c.len() as int)
    &&& bulk_body(s, end + 1, c.len() as int) == Step::Done(ReplyView::Bulk(c), pos + bulk_string(c).len())
}


/// A nil bulk string at `pos` reads back as nil.
pub proof fn lemma_element_nil(s: Seq<u8>, pos: int)
    requires
        0 <= pos,
        pos + 5 <= s.len(),
        s.subrange(pos, pos + 5) == nil_bulk_string(),
    ensures
        element_at(s, pos) == Step::Done(ReplyView::Nil, pos + 5),
{
    let p = seq![45u8, 49u8];
    assert(s.subrange(pos, pos + 5) =~= seq![BULK_PREFIX] + p + crlf());
    lemma_header(s, pos, BULK_PREFIX, p);
    assert(p.drop_first() =~= seq![49u8]);
    assert(seq![49u8].drop_last() =~= Seq::<u8>::empty());
    assert(seq![49u8].last() == 49u8);
    assert(crate::numbers::digits_value(Seq::<u8>::empty()) == 0);
    assert(crate::numbers::digits_value(seq![49u8]) == 1);
}

/// Whether every bulk string among the elements has a length that fits an `i64`.
pub open spec fn elements_fit(es: Seq<Option<Seq<u8>>>) -> bool {
    forall|i: int| 0 <= i < es.len() ==> (#[trigger] es[i] matches Some(c) ==> c.len() <= i64::MAX)
}

/// Consecutive array elements from `pos` on read back as what they encode.
pub proof fn lemma_elements(s: Seq<u8>, pos: int, es: Seq<Option<Seq<u8>>>)
    requires
        0 <= pos,
        pos + concat_all(element_wires(es)).len() <= s.len(),
        s.subrange(pos, pos + concat_all(element_wires(es)).len()) == concat_all(element_wires(es)),
        elements_fit(es),
    ensures
        elements_from(s, pos, es.len()) == Elements::Done(
            element_views(es),
            pos + concat_all(element_wires(es)).len(),
        ),
    decreases es.len(),
{
    let all = concat_all(element_wires(es));
    if es.len() == 0 {
        assert(element_views(es) =~= Seq::<ReplyView>::empty());
    } else {
        let first = element_wire(es[0]);
        let rest = es.drop_first();
        assert(element_wires(es)[0] == first);
        assert(element_wires(es).drop_first() =~= element_wires(rest));
        let tail = concat_all(element_wires(rest));
        assert(all == first + tail);
        assert(s.subrange(pos, pos + first.len() as int) =~= first) by {
            assert(s.subrange(pos, pos + first.len() as int) =~= all.subrange(0, first.len() as int));
        }
        match es[0] {
            Some(c) => lemma_element_bulk(s, pos, c),
            None => lemma_element_nil(s, pos),
        }
        let next = pos + first.len() as int;
        assert(s.subrange(next, next + tail.len() as int) =~= tail) by {
            assert(s.subrange(next, next + tail.len() as int) =~= all.subrange(first.len() as int, all.len() as int));
        }
        assert forall|i: int| 0 <= i < rest.len() implies (#[trigger] rest[i] matches Some(c) ==> c.len() <= i64::MAX) by {
            assert(rest[i] == es[i + 1]);
        }
        lemma_elements(s, next, rest);
        assert(seq![element_view(es[0])] + element_views(rest) =~= element_views(es));
    }
}

/// A bulk string, followed by anything, decodes as its content.
pub proof fn lemma_reply_bulk(c: Seq<u8>, rest: Seq<u8>)
    requires
        c.len() <= i64::MAX,
    ensures
        reply_at(bulk_string(c) + rest) == Step::Done(ReplyView::Bulk(c), bulk_string(c).len() as int),
{
    let b = bulk_string(c);
    let s = b + rest;
    assert(s.subrange(0, b.len() as int) =~= b);
    lemma_element_bulk(s, 0, c);
}

/// `$-1\r\n`, followed by anything, decodes as nil.
pub proof fn lemma_reply_nil(rest: Seq<u8>)
    ensures
        reply_at(nil_bulk_string() + rest) == Step::Done(ReplyView::Nil, 5),
{
    let s = nil_bulk_string() + rest;
    let p = seq![45u8, 49u8];
    assert(s.subrange(0, 5) =~= seq![BULK_PREFIX] + p + crlf());
    lemma_header(s, 0, BULK_PREFIX, p);
    assert(p.drop_first() =~= seq![49u8]);
    assert(seq![49u8].drop_last() =~= Seq::<u8>::empty());
    assert(seq![49u8].last() == 49u8);
    assert(crate::numbers::digits_value(Seq::<u8>::empty()) == 0);
    assert(crate::numbers::digits_value(seq![49u8]) == 1);
}

/// A header line of type byte `b` and payload `p`, followed by anything.
pub open spec fn line_with(b: u8, p: Seq<u8>, rest: Seq<u8>) -> Seq<u8> {
    seq![b] + p + crlf() + rest
}

/// An error line decodes as the server error it carries.
pub proof fn lemma_reply_error_line(p: Seq<u8>, rest: Seq<u8>)
    requires
        no_line_feed(p),
    ensures
        reply_at(line_with(ERROR_PREFIX, p, rest)) == Step::ServerError(p),
{
    let s = line_with(ERROR_PREFIX, p, rest);
    assert(s.subrange(0, p.len() + 3int) =~= seq![ERROR_PREFIX] + p + crlf());
    lemma_header(s, 0, ERROR_PREFIX, p);
}

/// An integer line decodes as its digits, kept as they came.
pub proof fn lemma_reply_integer_line(p: Seq<u8>, rest: Seq<u8>)
    requires
        no_line_feed(p),
    ensures
        reply_at(line_with(INTEGER_PREFIX, p, rest)) == Step::Done(ReplyView::Integer(p), p.len() + 3int),
{
    let s = line_with(INTEGER_PREFIX, p, rest);
    assert(s.subrange(0, p.len() + 3int) =~= seq![INTEGER_PREFIX] + p + crlf());
    lemma_header(s, 0, INTEGER_PREFIX, p);
}

/// An array whose elements are bulk strings or nils, followed by anything,
/// decodes as the array of what they encode, in order.
pub proof fn lemma_reply_array(es: Seq<Option<Seq<u8>>>, rest: Seq<u8>)
    requires
        es.len() <= u64::MAX,
        elements_fit(es),
    ensures
        reply_at(array_wire(es) + rest) == Step::Done(
            ReplyView::Array(element_views(es)),
            array_wire(es).len() as int,
        ),
{
    let t = int_text(es.len() as int);
    let a = array_wire(es);
    let s = a + rest;
    let body = concat_all(element_wires(es));
    let hl = t.len() + 3int;
    lemma_int_text_no_line_feed(es.len() as int);
    lemma_parse_int_text(es.len() as int, false);
    assert(s.subrange(0, hl) =~= seq![ARRAY_PREFIX] + t + crlf());
    lemma_header(s, 0, ARRAY_PREFIX, t);
    assert(s.subrange(hl, hl + body.len() as int) =~= body);
    lemma_elements(s, hl, es);
    assert(a.len() == hl + body.len());
    assert(s[0] == ARRAY_PREFIX);
    assert(parse_in_range(header_payload(s, 0, hl - 1), false, 0, u64::MAX as int) == Some(es.len() as int));
}

} // verus!
