//! Properties that relate several operations of the library.
use vstd::prelude::*;
use vstd::utf8::{encode_utf8_decode_utf8, encode_utf8_valid_utf8};

use crate::codec::{
    array_wire, bulk_string, element_view, element_views, elements_fit, lemma_int_text_no_line_feed,
    lemma_reply_array, lemma_reply_bulk, lemma_reply_error_line, lemma_reply_integer_line,
    lemma_reply_nil, line_with, nil_bulk_string, no_line_feed, reply_at, server_error_kind,
    auth_failure_prefix, Step, ERROR_PREFIX, INTEGER_PREFIX,
};
use crate::connection::ReplyView;
use crate::error::ErrorKind;
use crate::numbers::{int_text, lemma_int_text_short, lemma_parse_int_text};
use crate::protocol::{integer_value, RedisDeserializationProtocol, RedisSerializationProtocol};

verus! {

proof fn lemma_integer_round_trip(v: int, signed: bool, lo: int, hi: int)
    requires
        lo <= v <= hi,
        v < 0 ==> signed,
        -0x1_0000_0000_0000_0000_0000_0000_0000_0000 <= v <= 0x1_0000_0000_0000_0000_0000_0000_0000_0000,
    ensures
        reply_at(bulk_string(int_text(v))) == Step::Done(
            ReplyView::Bulk(int_text(v)),
            bulk_string(int_text(v)).len() as int,
        ),
        integer_value(ReplyView::Bulk(int_text(v)), signed, lo, hi) == Some(v),
        reply_at(line_with(INTEGER_PREFIX, int_text(v), Seq::empty())) == Step::Done(
            ReplyView::Integer(int_text(v)),
            int_text(v).len() + 3int,
        ),
        integer_value(ReplyView::Integer(int_text(v)), signed, lo, hi) == Some(v),
{
    lemma_parse_int_text(v, signed);
    lemma_int_text_no_line_feed(v);
    assert(int_text(v) + Seq::<u8>::empty() =~= int_text(v));
    if v < 0 {
        assert(int_text(v).len() == 1 + crate::numbers::digits_of((-v) as nat).len());
    }
    lemma_int_text_short(v);
    lemma_reply_bulk(int_text(v), Seq::empty());
    assert(bulk_string(int_text(v)) + Seq::<u8>::empty() =~= bulk_string(int_text(v)));
    lemma_reply_integer_line(int_text(v), Seq::empty());
}

/// Text sent as an argument and echoed back by the server as a bulk string
/// decodes as that bulk string, and reads back as the same text.
pub proof fn law_round_trip_string(v: String)
    requires
        v.wire_content().len() <= i64::MAX,
    ensures
        reply_at(bulk_string(v.wire_content())) == Step::Done(
            ReplyView::Bulk(v.wire_content()),
            bulk_string(v.wire_content()).len() as int,
        ),
        <String as RedisDeserializationProtocol>::accepts(ReplyView::Bulk(v.wire_content())),
        <String as RedisDeserializationProtocol>::yields(ReplyView::Bulk(v.wire_content()), v),
{
    lemma_reply_bulk(v.wire_content(), Seq::empty());
    assert(bulk_string(v.wire_content()) + Seq::<u8>::empty() =~= bulk_string(v.wire_content()));
    encode_utf8_valid_utf8(v@);
    encode_utf8_decode_utf8(v@);
}

/// A `u8` sent as an argument and echoed back by the server, as a bulk
/// string or as an integer line, reads back as the same `u8`.
pub proof fn law_round_trip_u8(v: u8)
    ensures
        reply_at(bulk_string(v.wire_content())) == Step::Done(
            ReplyView::Bulk(v.wire_content()),
            bulk_string(v.wire_content()).len() as int,
        ),
        <u8 as RedisDeserializationProtocol>::accepts(ReplyView::Bulk(v.wire_content())),
        <u8 as RedisDeserializationProtocol>::yields(ReplyView::Bulk(v.wire_content()), v),
        reply_at(line_with(INTEGER_PREFIX, v.wire_content(), Seq::empty())) == Step::Done(
            ReplyView::Integer(v.wire_content()),
            v.wire_content().len() + 3int,
        ),
        <u8 as RedisDeserializationProtocol>::accepts(ReplyView::Integer(v.wire_content())),
        <u8 as RedisDeserializationProtocol>::yields(ReplyView::Integer(v.wire_content()), v),
{
    lemma_integer_round_trip(v as int, false, u8::MIN as int, u8::MAX as int);
}

/// A `i8` sent as an argument and echoed back by the server, as a bulk
/// string or as an integer line, reads back as the same `i8`.
pub proof fn law_round_trip_i8(v: i8)
    ensures
        reply_at(bulk_string(v.wire_content())) == Step::Done(
            ReplyView::Bulk(v.wire_content()),
            bulk_string(v.wire_content()).len() as int,
        ),
        <i8 as RedisDeserializationProtocol>::accepts(ReplyView::Bulk(v.wire_content())),
        <i8 as RedisDeserializationProtocol>::yields(ReplyView::Bulk(v.wire_content()), v),
        reply_at(line_with(INTEGER_PREFIX, v.wire_content(), Seq::empty())) == Step::Done(
            ReplyView::Integer(v.wire_content()),
            v.wire_content().len() + 3int,
        ),
        <i8 as RedisDeserializationProtocol>::accepts(ReplyView::Integer(v.wire_content())),
        <i8 as RedisDeserializationProtocol>::yields(ReplyView::Integer(v.wire_content()), v),
{
    lemma_integer_round_trip(v as int, true, i8::MIN as int, i8::MAX as int);
}

/// A `u16` sent as an argument and echoed back by the server, as a bulk
/// string or as an integer line, reads back as the same `u16`.
pub proof fn law_round_trip_u16(v: u16)
    ensures
        reply_at(bulk_string(v.wire_content())) == Step::Done(
            ReplyView::Bulk(v.wire_content()),
            bulk_string(v.wire_content()).len() as int,
        ),
        <u16 as RedisDeserializationProtocol>::accepts(ReplyView::Bulk(v.wire_content())),
        <u16 as RedisDeserializationProtocol>::yields(ReplyView::Bulk(v.wire_content()), v),
        reply_at(line_with(INTEGER_PREFIX, v.wire_content(), Seq::empty())) == Step::Done(
            ReplyView::Integer(v.wire_content()),
            v.wire_content().len() + 3int,
        ),
        <u16 as RedisDeserializationProtocol>::accepts(ReplyView::Integer(v.wire_content())),
        <u16 as RedisDeserializationProtocol>::yields(ReplyView::Integer(v.wire_content()), v),
{
    lemma_integer_round_trip(v as int, false, u16::MIN as int, u16::MAX as int);
}

/// A `i16` sent as an argument and echoed back by the server, as a bulk
/// string or as an integer line, reads back as the same `i16`.
pub proof fn law_round_trip_i16(v: i16)
    ensures
        reply_at(bulk_string(v.wire_content())) == Step::Done(
            ReplyView::Bulk(v.wire_content()),
            bulk_string(v.wire_content()).len() as int,
        ),
        <i16 as RedisDeserializationProtocol>::accepts(ReplyView::Bulk(v.wire_content())),
        <i16 as RedisDeserializationProtocol>::yields(ReplyView::Bulk(v.wire_content()), v),
        reply_at(line_with(INTEGER_PREFIX, v.wire_content(), Seq::empty())) == Step::Done(
            ReplyView::Integer(v.wire_content()),
            v.wire_content().len() + 3int,
        ),
        <i16 as RedisDeserializationProtocol>::accepts(ReplyView::Integer(v.wire_content())),
        <i16 as RedisDeserializationProtocol>::yields(ReplyView::Integer(v.wire_content()), v),
{
    lemma_integer_round_trip(v as int, true, i16::MIN as int, i16::MAX as int);
}

/// A `u32` sent as an argument and echoed back by the server, as a bulk
/// string or as an integer line, reads back as the same `u32`.
pub proof fn law_round_trip_u32(v: u32)
    ensures
        reply_at(bulk_string(v.wire_content())) == Step::Done(
            ReplyView::Bulk(v.wire_content()),
            bulk_string(v.wire_content()).len() as int,
        ),
        <u32 as RedisDeserializationProtocol>::accepts(ReplyView::Bulk(v.wire_content())),
        <u32 as RedisDeserializationProtocol>::yields(ReplyView::Bulk(v.wire_content()), v),
        reply_at(line_with(INTEGER_PREFIX, v.wire_content(), Seq::empty())) == Step::Done(
            ReplyView::Integer(v.wire_content()),
            v.wire_content().len() + 3int,
        ),
        <u32 as RedisDeserializationProtocol>::accepts(ReplyView::Integer(v.wire_content())),
        <u32 as RedisDeserializationProtocol>::yields(ReplyView::Integer(v.wire_content()), v),
{
    lemma_integer_round_trip(v as int, false, u32::MIN as int, u32::MAX as int);
}

/// A `i32` sent as an argument and echoed back by the server, as a bulk
/// string or as an integer line, reads back as the same `i32`.
pub proof fn law_round_trip_i32(v: i32)
    ensures
        reply_at(bulk_string(v.wire_content())) == Step::Done(
            ReplyView::Bulk(v.wire_content()),
            bulk_string(v.wire_content()).len() as int,
        ),
        <i32 as RedisDeserializationProtocol>::accepts(ReplyView::Bulk(v.wire_content())),
        <i32 as RedisDeserializationProtocol>::yields(ReplyView::Bulk(v.wire_content()), v),
        reply_at(line_with(INTEGER_PREFIX, v.wire_content(), Seq::empty())) == Step::Done(
            ReplyView::Integer(v.wire_content()),
            v.wire_content().len() + 3int,
        ),
        <i32 as RedisDeserializationProtocol>::accepts(ReplyView::Integer(v.wire_content())),
        <i32 as RedisDeserializationProtocol>::yields(ReplyView::Integer(v.wire_content()), v),
{
    lemma_integer_round_trip(v as int, true, i32::MIN as int, i32::MAX as int);
}

/// A `u64` sent as an argument and echoed back by the server, as a bulk
/// string or as an integer line, reads back as the same `u64`.
pub proof fn law_round_trip_u64(v: u64)
    ensures
        reply_at(bulk_string(v.wire_content())) == Step::Done(
            ReplyView::Bulk(v.wire_content()),
            bulk_string(v.wire_content()).len() as int,
        ),
        <u64 as RedisDeserializationProtocol>::accepts(ReplyView::Bulk(v.wire_content())),
        <u64 as RedisDeserializationProtocol>::yields(ReplyView::Bulk(v.wire_content()), v),
        reply_at(line_with(INTEGER_PREFIX, v.wire_content(), Seq::empty())) == Step::Done(
            ReplyView::Integer(v.wire_content()),
            v.wire_content().len() + 3int,
        ),
        <u64 as RedisDeserializationProtocol>::accepts(ReplyView::Integer(v.wire_content())),
        <u64 as RedisDeserializationProtocol>::yields(ReplyView::Integer(v.wire_content()), v),
{
    lemma_integer_round_trip(v as int, false, u64::MIN as int, u64::MAX as int);
}

/// A `i64` sent as an argument and echoed back by the server, as a bulk
/// string or as an integer line, reads back as the same `i64`.
pub proof fn law_round_trip_i64(v: i64)
    ensures
        reply_at(bulk_string(v.wire_content())) == Step::Done(
            ReplyView::Bulk(v.wire_content()),
            bulk_string(v.wire_content()).len() as int,
        ),
        <i64 as RedisDeserializationProtocol>::accepts(ReplyView::Bulk(v.wire_content())),
        <i64 as RedisDeserializationProtocol>::yields(ReplyView::Bulk(v.wire_content()), v),
        reply_at(line_with(INTEGER_PREFIX, v.wire_content(), Seq::empty())) == Step::Done(
            ReplyView::Integer(v.wire_content()),
            v.wire_content().len() + 3int,
        ),
        <i64 as RedisDeserializationProtocol>::accepts(ReplyView::Integer(v.wire_content())),
        <i64 as RedisDeserializationProtocol>::yields(ReplyView::Integer(v.wire_content()), v),
{
    lemma_integer_round_trip(v as int, true, i64::MIN as int, i64::MAX as int);
}

/// A `u128` sent as an argument and echoed back by the server, as a bulk
/// string or as an integer line, reads back as the same `u128`.
pub proof fn law_round_trip_u128(v: u128)
    ensures
        reply_at(bulk_string(v.wire_content())) == Step::Done(
            ReplyView::Bulk(v.wire_content()),
            bulk_string(v.wire_content()).len() as int,
        ),
        <u128 as RedisDeserializationProtocol>::accepts(ReplyView::Bulk(v.wire_content())),
        <u128 as RedisDeserializationProtocol>::yields(ReplyView::Bulk(v.wire_content()), v),
        reply_at(line_with(INTEGER_PREFIX, v.wire_content(), Seq::empty())) == Step::Done(
            ReplyView::Integer(v.wire_content()),
            v.wire_content().len() + 3int,
        ),
        <u128 as RedisDeserializationProtocol>::accepts(ReplyView::Integer(v.wire_content())),
        <u128 as RedisDeserializationProtocol>::yields(ReplyView::Integer(v.wire_content()), v),
{
    lemma_integer_round_trip(v as int, false, u128::MIN as int, u128::MAX as int);
}

/// A `i128` sent as an argument and echoed back by the server, as a bulk
/// string or as an integer line, reads back as the same `i128`.
pub proof fn law_round_trip_i128(v: i128)
    ensures
        reply_at(bulk_string(v.wire_content())) == Step::Done(
            ReplyView::Bulk(v.wire_content()),
            bulk_string(v.wire_content()).len() as int,
        ),
        <i128 as RedisDeserializationProtocol>::accepts(ReplyView::Bulk(v.wire_content())),
        <i128 as RedisDeserializationProtocol>::yields(ReplyView::Bulk(v.wire_content()), v),
        reply_at(line_with(INTEGER_PREFIX, v.wire_content(), Seq::empty())) == Step::Done(
            ReplyView::Integer(v.wire_content()),
            v.wire_content().len() + 3int,
        ),
        <i128 as RedisDeserializationProtocol>::accepts(ReplyView::Integer(v.wire_content())),
        <i128 as RedisDeserializationProtocol>::yields(ReplyView::Integer(v.wire_content()), v),
{
    lemma_integer_round_trip(v as int, true, i128::MIN as int, i128::MAX as int);
}

/// A `usize` sent as an argument and echoed back by the server, as a bulk
/// string or as an integer line, reads back as the same `usize`.
pub proof fn law_round_trip_usize(v: usize)
    ensures
        reply_at(bulk_string(v.wire_content())) == Step::Done(
            ReplyView::Bulk(v.wire_content()),
            bulk_string(v.wire_content()).len() as int,
        ),
        <usize as RedisDeserializationProtocol>::accepts(ReplyView::Bulk(v.wire_content())),
        <usize as RedisDeserializationProtocol>::yields(ReplyView::Bulk(v.wire_content()), v),
        reply_at(line_with(INTEGER_PREFIX, v.wire_content(), Seq::empty())) == Step::Done(
            ReplyView::Integer(v.wire_content()),
            v.wire_content().len() + 3int,
        ),
        <usize as RedisDeserializationProtocol>::accepts(ReplyView::Integer(v.wire_content())),
        <usize as RedisDeserializationProtocol>::yields(ReplyView::Integer(v.wire_content()), v),
{
    lemma_integer_round_trip(v as int, false, usize::MIN as int, usize::MAX as int);
}

/// A `isize` sent as an argument and echoed back by the server, as a bulk
/// string or as an integer line, reads back as the same `isize`.
pub proof fn law_round_trip_isize(v: isize)
    ensures
        reply_at(bulk_string(v.wire_content())) == Step::Done(
            ReplyView::Bulk(v.wire_content()),
            bulk_string(v.wire_content()).len() as int,
        ),
        <isize as RedisDeserializationProtocol>::accepts(ReplyView::Bulk(v.wire_content())),
        <isize as RedisDeserializationProtocol>::yields(ReplyView::Bulk(v.wire_content()), v),
        reply_at(line_with(INTEGER_PREFIX, v.wire_content(), Seq::empty())) == Step::Done(
            ReplyView::Integer(v.wire_content()),
            v.wire_content().len() + 3int,
        ),
        <isize as RedisDeserializationProtocol>::accepts(ReplyView::Integer(v.wire_content())),
        <isize as RedisDeserializationProtocol>::yields(ReplyView::Integer(v.wire_content()), v),
{
    lemma_integer_round_trip(v as int, true, isize::MIN as int, isize::MAX as int);
}

/// Nil (`$-1\r\n`) and the empty bulk string (`$0\r\n\r\n`) are distinct wire
/// values, and decode to distinct replies.
pub proof fn law_nil_is_not_empty(rest: Seq<u8>)
    ensures
        reply_at(nil_bulk_string() + rest) == Step::Done(ReplyView::Nil, 5),
        reply_at(bulk_string(Seq::empty()) + rest) == Step::Done(ReplyView::Bulk(Seq::empty()), 6),
        ReplyView::Nil != ReplyView::Bulk(Seq::<u8>::empty()),
{
    lemma_reply_nil(rest);
    lemma_reply_bulk(Seq::empty(), rest);
    assert(int_text(0) =~= seq![48u8]);
}

/// An array of bulk strings and nils decodes as an array with one element
/// per wire element, in the order they came, each a bulk string with the same
/// content or nil; `*0\r\n` decodes as the empty array.
pub proof fn law_array_length_and_order(elements: Seq<Option<Seq<u8>>>, rest: Seq<u8>)
    requires
        elements.len() <= u64::MAX,
        elements_fit(elements),
    ensures
        reply_at(array_wire(elements) + rest) == Step::Done(
            ReplyView::Array(element_views(elements)),
            array_wire(elements).len() as int,
        ),
        element_views(elements).len() == elements.len(),
        forall|i: int|
            0 <= i < elements.len() ==> #[trigger] element_views(elements)[i] == element_view(elements[i]),
{
    lemma_reply_array(elements, rest);
}

/// An error line never decodes as a reply: it is a server error that carries
/// the line's text, a `FromServer` one unless the text starts with `WRONGPASS`.
pub proof fn law_error_line_is_an_error(text: Seq<u8>, rest: Seq<u8>)
    requires
        no_line_feed(text),
    ensures
        reply_at(line_with(ERROR_PREFIX, text, rest)) == Step::ServerError(text),
        !(text.len() >= 9 && text.subrange(0, 9) == auth_failure_prefix()) ==> server_error_kind(text) == ErrorKind::FromServer,
{
    lemma_reply_error_line(text, rest);
}

} // verus!
