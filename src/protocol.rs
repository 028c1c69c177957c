use std::collections::{BTreeMap, HashMap, HashSet};
use std::hash::Hash;
use vstd::prelude::*;
use vstd::std_specs::btree::key_obeys_cmp_spec;
use vstd::std_specs::hash::obeys_key_model;
use vstd::utf8::{decode_utf8, encode_utf8, valid_utf8};

use crate::client::ListBeforeOrAfter;
use crate::codec::{bulk_string, encode_bulk_string};
use crate::connection::{Reply, ReplyView, SingleStrings};
use crate::error::{ErrorKind, RedisError};
use crate::numbers::{int_text, parse_bounded, parse_in_range, signed_text, signed_value, unsigned_text};
use crate::DataType;
use crate::RedisResult;

verus! {

/// A value that can be sent as a command argument: it goes on the wire as a
/// bulk string whose content is `wire_content`.
pub trait RedisSerializationProtocol {
    /// The bytes that stand for this value inside its bulk string.
    spec fn wire_content(&self) -> Seq<u8>;

    fn serialization(&self) -> (r: Vec<u8>)
        ensures
            r@ == bulk_string(self.wire_content()),
    ;
}

/// A value that can be read from a reply.
///
/// `deserialization` succeeds exactly on the replies that `accepts` admits,
/// gives a value of which `yields` holds, and otherwise fails with the kind
/// that `rejection` names.
pub trait RedisDeserializationProtocol: Sized {
    spec fn accepts(reply: ReplyView) -> bool;

    spec fn rejection(reply: ReplyView) -> ErrorKind;

    spec fn yields(reply: ReplyView, value: Self) -> bool;

    fn deserialization(reply: Reply) -> (r: RedisResult<Self>)
        ensures
            r is Ok <==> Self::accepts(reply@),
            r matches Ok(v) ==> Self::yields(reply@, v),
            r matches Err(e) ==> e.kind() == Self::rejection(reply@),
    ;
}


impl RedisSerializationProtocol for String {
    open spec fn wire_content(&self) -> Seq<u8> {
        encode_utf8(self@)
    }

    fn serialization(&self) -> (r: Vec<u8>) {
        encode_bulk_string(self.as_str().as_bytes())
    }
}

impl<'a> RedisSerializationProtocol for &'a str {
    open spec fn wire_content(&self) -> Seq<u8> {
        encode_utf8((**self)@)
    }

    fn serialization(&self) -> (r: Vec<u8>) {
        encode_bulk_string((*self).as_bytes())
    }
}

impl RedisSerializationProtocol for Vec<u8> {
    open spec fn wire_content(&self) -> Seq<u8> {
        self@
    }

    fn serialization(&self) -> (r: Vec<u8>) {
        encode_bulk_string(self.as_slice())
    }
}

impl RedisSerializationProtocol for ListBeforeOrAfter {
    open spec fn wire_content(&self) -> Seq<u8> {
        match self {
            ListBeforeOrAfter::Before => seq![66u8, 69u8, 70u8, 79u8, 82u8, 69u8],
            ListBeforeOrAfter::After => seq![65u8, 70u8, 84u8, 69u8, 82u8],
        }
    }

    fn serialization(&self) -> (r: Vec<u8>) {
        match self {
            ListBeforeOrAfter::Before => {
                let word: [u8; 6] = [66, 69, 70, 79, 82, 69];
                let r = encode_bulk_string(&word);
                assert(word@ =~= self.wire_content());
                r
            },
            ListBeforeOrAfter::After => {
                let word: [u8; 5] = [65, 70, 84, 69, 82];
                let r = encode_bulk_string(&word);
                assert(word@ =~= self.wire_content());
                r
            },
        }
    }
}

impl RedisSerializationProtocol for u8 {
    open spec fn wire_content(&self) -> Seq<u8> {
        int_text(*self as int)
    }

    fn serialization(&self) -> (r: Vec<u8>) {
        let text = unsigned_text(*self as u128);
        encode_bulk_string(text.as_slice())
    }
}

impl RedisSerializationProtocol for i8 {
    open spec fn wire_content(&self) -> Seq<u8> {
        int_text(*self as int)
    }

    fn serialization(&self) -> (r: Vec<u8>) {
        let text = signed_text(*self as i128);
        encode_bulk_string(text.as_slice())
    }
}

impl RedisSerializationProtocol for u16 {
    open spec fn wire_content(&self) -> Seq<u8> {
        int_text(*self as int)
    }

    fn serialization(&self) -> (r: Vec<u8>) {
        let text = unsigned_text(*self as u128);
        encode_bulk_string(text.as_slice())
    }
}

impl RedisSerializationProtocol for i16 {
    open spec fn wire_content(&self) -> Seq<u8> {
        int_text(*self as int)
    }

    fn serialization(&self) -> (r: Vec<u8>) {
        let text = signed_text(*self as i128);
        encode_bulk_string(text.as_slice())
    }
}

impl RedisSerializationProtocol for u32 {
    open spec fn wire_content(&self) -> Seq<u8> {
        int_text(*self as int)
    }

    fn serialization(&self) -> (r: Vec<u8>) {
        let text = unsigned_text(*self as u128);
        encode_bulk_string(text.as_slice())
    }
}

impl RedisSerializationProtocol for i32 {
    open spec fn wire_content(&self) -> Seq<u8> {
        int_text(*self as int)
    }

    fn serialization(&self) -> (r: Vec<u8>) {
        let text = signed_text(*self as i128);
        encode_bulk_string(text.as_slice())
    }
}

impl RedisSerializationProtocol for u64 {
    open spec fn wire_content(&self) -> Seq<u8> {
        int_text(*self as int)
    }

    fn serialization(&self) -> (r: Vec<u8>) {
        let text = unsigned_text(*self as u128);
        encode_bulk_string(text.as_slice())
    }
}

impl RedisSerializationProtocol for i64 {
    open spec fn wire_content(&self) -> Seq<u8> {
        int_text(*self as int)
    }

    fn serialization(&self) -> (r: Vec<u8>) {
        let text = signed_text(*self as i128);
        encode_bulk_string(text.as_slice())
    }
}

impl RedisSerializationProtocol for u128 {
    open spec fn wire_content(&self) -> Seq<u8> {
        int_text(*self as int)
    }

    fn serialization(&self) -> (r: Vec<u8>) {
        let text = unsigned_text(*self as u128);
        encode_bulk_string(text.as_slice())
    }
}

impl RedisSerializationProtocol for i128 {
    open spec fn wire_content(&self) -> Seq<u8> {
        int_text(*self as int)
    }

    fn serialization(&self) -> (r: Vec<u8>) {
        let text = signed_text(*self as i128);
        encode_bulk_string(text.as_slice())
    }
}

impl RedisSerializationProtocol for usize {
    open spec fn wire_content(&self) -> Seq<u8> {
        int_text(*self as int)
    }

    fn serialization(&self) -> (r: Vec<u8>) {
        let text = unsigned_text(*self as u128);
        encode_bulk_string(text.as_slice())
    }
}

impl RedisSerializationProtocol for isize {
    open spec fn wire_content(&self) -> Seq<u8> {
        int_text(*self as int)
    }

    fn serialization(&self) -> (r: Vec<u8>) {
        let text = signed_text(*self as i128);
        encode_bulk_string(text.as_slice())
    }
}

/// The integer that a reply carries as decimal text, on an integer line or in
/// a bulk string, where it lies in `lo..=hi`.
pub open spec fn integer_value(reply: ReplyView, signed: bool, lo: int, hi: int) -> Option<int> {
    match reply {
        ReplyView::Integer(p) => parse_in_range(p, signed, lo, hi),
        ReplyView::Bulk(p) => parse_in_range(p, signed, lo, hi),
        _ => None,
    }
}

/// Reads the integer in `-neg_limit..=pos_limit` that `reply` carries: its sign
/// and magnitude.
fn read_integer(reply: Reply, signed: bool, neg_limit: u128, pos_limit: u128) -> (r: RedisResult<(bool, u128)>)
    ensures
        r is Ok <==> integer_value(reply@, signed, -(neg_limit as int), pos_limit as int) is Some,
        r matches Ok((neg, m)) ==> integer_value(reply@, signed, -(neg_limit as int), pos_limit as int)
            == Some(if neg { -(m as int) } else { m as int }),
        r matches Ok((neg, m)) ==> if neg { m <= neg_limit } else { m <= pos_limit },
        r matches Err(e) ==> e.kind() == ErrorKind::TypeError,
{
    let parsed = match &reply {
        Reply::Integers(data) => parse_bounded(data.as_slice(), signed, neg_limit, pos_limit),
        Reply::BulkStrings(data) => parse_bounded(data.as_slice(), signed, neg_limit, pos_limit),
        _ => return Err(RedisError::custom(ErrorKind::TypeError, "reply is not a number")),
    };
    match parsed {
        Some((neg, m)) => Ok((neg, m)),
        None => Err(RedisError::custom(ErrorKind::TypeError, "invalid digit")),
    }
}

impl RedisDeserializationProtocol for u8 {
    open spec fn accepts(reply: ReplyView) -> bool {
        integer_value(reply, false, u8::MIN as int, u8::MAX as int) is Some
    }

    open spec fn rejection(reply: ReplyView) -> ErrorKind {
        ErrorKind::TypeError
    }

    open spec fn yields(reply: ReplyView, value: Self) -> bool {
        integer_value(reply, false, u8::MIN as int, u8::MAX as int) == Some(value as int)
    }

    fn deserialization(reply: Reply) -> (r: RedisResult<u8>) {
        match read_integer(reply, false, 0, 255) {
            Ok((_, m)) => Ok(m as u8),
            Err(e) => Err(e),
        }
    }
}

impl RedisDeserializationProtocol for i8 {
    open spec fn accepts(reply: ReplyView) -> bool {
        integer_value(reply, true, i8::MIN as int, i8::MAX as int) is Some
    }

    open spec fn rejection(reply: ReplyView) -> ErrorKind {
        ErrorKind::TypeError
    }

    open spec fn yields(reply: ReplyView, value: Self) -> bool {
        integer_value(reply, true, i8::MIN as int, i8::MAX as int) == Some(value as int)
    }

    fn deserialization(reply: Reply) -> (r: RedisResult<i8>) {
        match read_integer(reply, true, 128, 127) {
            Ok((neg, m)) => Ok(signed_value(neg, m) as i8),
            Err(e) => Err(e),
        }
    }
}

impl RedisDeserializationProtocol for u16 {
    open spec fn accepts(reply: ReplyView) -> bool {
        integer_value(reply, false, u16::MIN as int, u16::MAX as int) is Some
    }

    open spec fn rejection(reply: ReplyView) -> ErrorKind {
        ErrorKind::TypeError
    }

    open spec fn yields(reply: ReplyView, value: Self) -> bool {
        integer_value(reply, false, u16::MIN as int, u16::MAX as int) == Some(value as int)
    }

    fn deserialization(reply: Reply) -> (r: RedisResult<u16>) {
        match read_integer(reply, false, 0, 65535) {
            Ok((_, m)) => Ok(m as u16),
            Err(e) => Err(e),
        }
    }
}

impl RedisDeserializationProtocol for i16 {
    open spec fn accepts(reply: ReplyView) -> bool {
        integer_value(reply, true, i16::MIN as int, i16::MAX as int) is Some
    }

    open spec fn rejection(reply: ReplyView) -> ErrorKind {
        ErrorKind::TypeError
    }

    open spec fn yields(reply: ReplyView, value: Self) -> bool {
        integer_value(reply, true, i16::MIN as int, i16::MAX as int) == Some(value as int)
    }

    fn deserialization(reply: Reply) -> (r: RedisResult<i16>) {
        match read_integer(reply, true, 32768, 32767) {
            Ok((neg, m)) => Ok(signed_value(neg, m) as i16),
            Err(e) => Err(e),
        }
    }
}

impl RedisDeserializationProtocol for u32 {
    open spec fn accepts(reply: ReplyView) -> bool {
        integer_value(reply, false, u32::MIN as int, u32::MAX as int) is Some
    }

    open spec fn rejection(reply: ReplyView) -> ErrorKind {
        ErrorKind::TypeError
    }

    open spec fn yields(reply: ReplyView, value: Self) -> bool {
        integer_value(reply, false, u32::MIN as int, u32::MAX as int) == Some(value as int)
    }

    fn deserialization(reply: Reply) -> (r: RedisResult<u32>) {
        match read_integer(reply, false, 0, 0xffff_ffff) {
            Ok((_, m)) => Ok(m as u32),
            Err(e) => Err(e),
        }
    }
}

impl RedisDeserializationProtocol for i32 {
    open spec fn accepts(reply: ReplyView) -> bool {
        integer_value(reply, true, i32::MIN as int, i32::MAX as int) is Some
    }

    open spec fn rejection(reply: ReplyView) -> ErrorKind {
        ErrorKind::TypeError
    }

    open spec fn yields(reply: ReplyView, value: Self) -> bool {
        integer_value(reply, true, i32::MIN as int, i32::MAX as int) == Some(value as int)
    }

    fn deserialization(reply: Reply) -> (r: RedisResult<i32>) {
        match read_integer(reply, true, 0x8000_0000, 0x7fff_ffff) {
            Ok((neg, m)) => Ok(signed_value(neg, m) as i32),
            Err(e) => Err(e),
        }
    }
}

impl RedisDeserializationProtocol for u64 {
    open spec fn accepts(reply: ReplyView) -> bool {
        integer_value(reply, false, u64::MIN as int, u64::MAX as int) is Some
    }

    open spec fn rejection(reply: ReplyView) -> ErrorKind {
        ErrorKind::TypeError
    }

    open spec fn yields(reply: ReplyView, value: Self) -> bool {
        integer_value(reply, false, u64::MIN as int, u64::MAX as int) == Some(value as int)
    }

    fn deserialization(reply: Reply) -> (r: RedisResult<u64>) {
        match read_integer(reply, false, 0, 0xffff_ffff_ffff_ffff) {
            Ok((_, m)) => Ok(m as u64),
            Err(e) => Err(e),
        }
    }
}

impl RedisDeserializationProtocol for i64 {
    open spec fn accepts(reply: ReplyView) -> bool {
        integer_value(reply, true, i64::MIN as int, i64::MAX as int) is Some
    }

    open spec fn rejection(reply: ReplyView) -> ErrorKind {
        ErrorKind::TypeError
    }

    open spec fn yields(reply: ReplyView, value: Self) -> bool {
        integer_value(reply, true, i64::MIN as int, i64::MAX as int) == Some(value as int)
    }

    fn deserialization(reply: Reply) -> (r: RedisResult<i64>) {
        match read_integer(reply, true, 0x8000_0000_0000_0000, 0x7fff_ffff_ffff_ffff) {
            Ok((neg, m)) => Ok(signed_value(neg, m) as i64),
            Err(e) => Err(e),
        }
    }
}

impl RedisDeserializationProtocol for u128 {
    open spec fn accepts(reply: ReplyView) -> bool {
        integer_value(reply, false, u128::MIN as int, u128::MAX as int) is Some
    }

    open spec fn rejection(reply: ReplyView) -> ErrorKind {
        ErrorKind::TypeError
    }

    open spec fn yields(reply: ReplyView, value: Self) -> bool {
        integer_value(reply, false, u128::MIN as int, u128::MAX as int) == Some(value as int)
    }

    fn deserialization(reply: Reply) -> (r: RedisResult<u128>) {
        match read_integer(reply, false, 0, u128::MAX) {
            Ok((_, m)) => Ok(m as u128),
            Err(e) => Err(e),
        }
    }
}

impl RedisDeserializationProtocol for i128 {
    open spec fn accepts(reply: ReplyView) -> bool {
        integer_value(reply, true, i128::MIN as int, i128::MAX as int) is Some
    }

    open spec fn rejection(reply: ReplyView) -> ErrorKind {
        ErrorKind::TypeError
    }

    open spec fn yields(reply: ReplyView, value: Self) -> bool {
        integer_value(reply, true, i128::MIN as int, i128::MAX as int) == Some(value as int)
    }

    fn deserialization(reply: Reply) -> (r: RedisResult<i128>) {
        match read_integer(reply, true, 0x8000_0000_0000_0000_0000_0000_0000_0000, 0x7fff_ffff_ffff_ffff_ffff_ffff_ffff_ffff) {
            Ok((neg, m)) => Ok(signed_value(neg, m) as i128),
            Err(e) => Err(e),
        }
    }
}

impl RedisDeserializationProtocol for usize {
    open spec fn accepts(reply: ReplyView) -> bool {
        integer_value(reply, false, usize::MIN as int, usize::MAX as int) is Some
    }

    open spec fn rejection(reply: ReplyView) -> ErrorKind {
        ErrorKind::TypeError
    }

    open spec fn yields(reply: ReplyView, value: Self) -> bool {
        integer_value(reply, false, usize::MIN as int, usize::MAX as int) == Some(value as int)
    }

    fn deserialization(reply: Reply) -> (r: RedisResult<usize>) {
        match read_integer(reply, false, 0, usize::MAX as u128) {
            Ok((_, m)) => Ok(m as usize),
            Err(e) => Err(e),
        }
    }
}

impl RedisDeserializationProtocol for isize {
    open spec fn accepts(reply: ReplyView) -> bool {
        integer_value(reply, true, isize::MIN as int, isize::MAX as int) is Some
    }

    open spec fn rejection(reply: ReplyView) -> ErrorKind {
        ErrorKind::TypeError
    }

    open spec fn yields(reply: ReplyView, value: Self) -> bool {
        integer_value(reply, true, isize::MIN as int, isize::MAX as int) == Some(value as int)
    }

    fn deserialization(reply: Reply) -> (r: RedisResult<isize>) {
        match read_integer(reply, true, isize::MAX as u128 + 1, isize::MAX as u128) {
            Ok((neg, m)) => Ok(signed_value(neg, m) as isize),
            Err(e) => Err(e),
        }
    }
}

/// Relies on `String::from_utf8`: it accepts exactly the valid UTF-8 byte
/// sequences, and then holds the text they encode.
#[verifier::external_body]
pub(crate) fn utf8_string(b: Vec<u8>) -> (r: Option<String>)
    ensures
        r is Some <==> valid_utf8(b@),
        r matches Some(s) ==> s@ == decode_utf8(b@),
{
    String::from_utf8(b).ok()
}

/// Whether a status token is an acknowledgement (`OK` or `PONG`).
pub open spec fn is_acknowledgement(t: SingleStrings) -> bool {
    t == SingleStrings::Okay || t == SingleStrings::Pong
}

/// The text of a reply: a bulk string's UTF-8 content, and empty text for nil
/// and for an acknowledgement.
pub open spec fn reply_text(reply: ReplyView) -> Seq<char> {
    match reply {
        ReplyView::Bulk(b) => decode_utf8(b),
        _ => Seq::empty(),
    }
}

impl RedisDeserializationProtocol for String {
    open spec fn accepts(reply: ReplyView) -> bool {
        match reply {
            ReplyView::Status(t) => is_acknowledgement(t),
            ReplyView::Bulk(b) => valid_utf8(b),
            ReplyView::Nil => true,
            _ => false,
        }
    }

    open spec fn rejection(reply: ReplyView) -> ErrorKind {
        ErrorKind::TypeError
    }

    open spec fn yields(reply: ReplyView, value: Self) -> bool {
        value@ == reply_text(reply)
    }

    fn deserialization(reply: Reply) -> (r: RedisResult<String>) {
        match reply {
            Reply::SingleStrings(t) => match t {
                SingleStrings::Okay | SingleStrings::Pong => Ok(String::new()),
                _ => Err(RedisError::custom(ErrorKind::TypeError, "wrong data type")),
            },
            Reply::BulkStrings(data) => match utf8_string(data) {
                Some(text) => Ok(text),
                None => Err(RedisError::custom(ErrorKind::TypeError, "invalid utf-8")),
            },
            Reply::Nil => Ok(String::new()),
            _ => Err(RedisError::custom(ErrorKind::TypeError, "reply is not text")),
        }
    }
}

impl RedisDeserializationProtocol for () {
    open spec fn accepts(reply: ReplyView) -> bool {
        reply matches ReplyView::Status(t) && is_acknowledgement(t)
    }

    open spec fn rejection(reply: ReplyView) -> ErrorKind {
        ErrorKind::TypeError
    }

    open spec fn yields(reply: ReplyView, value: Self) -> bool {
        true
    }

    fn deserialization(reply: Reply) -> (r: RedisResult<()>) {
        match reply {
            Reply::SingleStrings(t) => match t {
                SingleStrings::Okay | SingleStrings::Pong => Ok(()),
                _ => Err(RedisError::custom(ErrorKind::TypeError, "wrong data type")),
            },
            _ => Err(RedisError::custom(ErrorKind::TypeError, "reply is not a status")),
        }
    }
}

impl RedisDeserializationProtocol for bool {
    open spec fn accepts(reply: ReplyView) -> bool {
        <usize as RedisDeserializationProtocol>::accepts(reply)
    }

    open spec fn rejection(reply: ReplyView) -> ErrorKind {
        ErrorKind::TypeError
    }

    open spec fn yields(reply: ReplyView, value: Self) -> bool {
        exists|n: usize| <usize as RedisDeserializationProtocol>::yields(reply, n) && value == (n != 0)
    }

    fn deserialization(reply: Reply) -> (r: RedisResult<bool>) {
        match <usize as RedisDeserializationProtocol>::deserialization(reply) {
            Ok(n) => Ok(n != 0),
            Err(e) => Err(e),
        }
    }
}

impl RedisDeserializationProtocol for DataType {
    open spec fn accepts(reply: ReplyView) -> bool {
        reply matches ReplyView::Status(t) && !is_acknowledgement(t)
    }

    open spec fn rejection(reply: ReplyView) -> ErrorKind {
        ErrorKind::TypeError
    }

    open spec fn yields(reply: ReplyView, value: Self) -> bool {
        reply == ReplyView::Status(
            match value {
                DataType::String => SingleStrings::String,
                DataType::List => SingleStrings::List,
                DataType::UnorderedSet => SingleStrings::UnorderedSet,
            },
        )
    }

    fn deserialization(reply: Reply) -> (r: RedisResult<DataType>) {
        match reply {
            Reply::SingleStrings(t) => match t {
                SingleStrings::String => Ok(DataType::String),
                SingleStrings::List => Ok(DataType::List),
                SingleStrings::UnorderedSet => Ok(DataType::UnorderedSet),
                _ => Err(RedisError::custom(ErrorKind::TypeError, "wrong data type")),
            },
            _ => Err(RedisError::custom(ErrorKind::TypeError, "reply is not a status")),
        }
    }
}

/// The kind of error for the first element of `a` that `T` does not accept.
pub open spec fn elements_rejection<T: RedisDeserializationProtocol>(a: Seq<ReplyView>) -> ErrorKind
    decreases a.len(),
{
    if a.len() == 0 {
        ErrorKind::TypeError
    } else if !T::accepts(a[0]) {
        T::rejection(a[0])
    } else {
        elements_rejection::<T>(a.drop_first())
    }
}

/// Whether `T` accepts every element of `a`.
pub open spec fn all_accepted<T: RedisDeserializationProtocol>(a: Seq<ReplyView>) -> bool {
    forall|i: int| 0 <= i < a.len() ==> T::accepts(#[trigger] a[i])
}

proof fn lemma_elements_rejection<T: RedisDeserializationProtocol>(a: Seq<ReplyView>, k: int)
    requires
        0 <= k < a.len(),
        all_accepted::<T>(a.subrange(0, k)),
        !T::accepts(a[k]),
    ensures
        elements_rejection::<T>(a) == T::rejection(a[k]),
    decreases k,
{
    if k > 0 {
        assert(T::accepts(a.subrange(0, k)[0]));
        let b = a.drop_first();
        assert forall|i: int| 0 <= i < k - 1 implies T::accepts(#[trigger] b.subrange(0, k - 1)[i]) by {
            assert(b.subrange(0, k - 1)[i] == a.subrange(0, k)[i + 1]);
        }
        lemma_elements_rejection::<T>(b, k - 1);
    }
}

/// Reads each element of an array reply as a `T`.
impl<T: RedisDeserializationProtocol> RedisDeserializationProtocol for Vec<T> {
    open spec fn accepts(reply: ReplyView) -> bool {
        reply matches ReplyView::Array(a) && all_accepted::<T>(a)
    }

    open spec fn rejection(reply: ReplyView) -> ErrorKind {
        match reply {
            ReplyView::Array(a) => elements_rejection::<T>(a),
            _ => ErrorKind::TypeError,
        }
    }

    open spec fn yields(reply: ReplyView, value: Self) -> bool {
        reply matches ReplyView::Array(a) && value@.len() == a.len() && forall|i: int|
            0 <= i < a.len() ==> T::yields(a[i], #[trigger] value@[i])
    }

    fn deserialization(reply: Reply) -> (r: RedisResult<Vec<T>>) {
        let ghost whole = reply@;
        match reply {
            Reply::Arrays(array) => {
                let ghost a = whole->Array_0;
                let ghost items = array@;
                assert(a.len() == items.len());
                assert forall|i: int| 0 <= i < a.len() implies a[i] == (#[trigger] items[i])@ by {}
                let mut values: Vec<T> = Vec::new();
                for ele in it: array
                    invariant
                        it.seq() == items,
                        whole == ReplyView::Array(a),
                        whole == reply@,
                        a.len() == items.len(),
                        forall|i: int| 0 <= i < a.len() ==> a[i] == (#[trigger] items[i])@,
                        values@.len() == it.index(),
                        forall|i: int| 0 <= i < it.index() ==> T::accepts(#[trigger] a[i]),
                        forall|i: int| 0 <= i < it.index() ==> T::yields(a[i], #[trigger] values@[i]),
                {
                    let ghost k = it.index();
                    assert(ele@ == a[k as int]);
                    match T::deserialization(ele) {
                        Ok(v) => {
                            values.push(v);
                        },
                        Err(e) => {
                            proof {
                                assert(!T::accepts(a[k as int]));
                                assert(!all_accepted::<T>(a));
                                assert forall|i: int| 0 <= i < k implies T::accepts(
                                    #[trigger] a.subrange(0, k as int)[i],
                                ) by {
                                    assert(a.subrange(0, k as int)[i] == a[i]);
                                }
                                lemma_elements_rejection::<T>(a, k as int);
                            }
                            return Err(e);
                        },
                    }
                }
                Ok(values)
            },
            _ => Err(RedisError::custom(ErrorKind::TypeError, "reply is not an array")),
        }
    }
}

/// Whether an array's elements read as key/value pairs: there is an even
/// number of them, those at even positions read as `K` and the others as `V`.
pub open spec fn pairs_accepted<K: RedisDeserializationProtocol, V: RedisDeserializationProtocol>(
    a: Seq<ReplyView>,
) -> bool {
    &&& a.len() % 2 == 0
    &&& forall|i: int| 0 <= i < a.len() ==> #[trigger] element_accepted::<K, V>(a, i)
}

pub open spec fn element_accepted<K: RedisDeserializationProtocol, V: RedisDeserializationProtocol>(
    a: Seq<ReplyView>,
    i: int,
) -> bool {
    if i % 2 == 0 {
        K::accepts(a[i])
    } else {
        V::accepts(a[i])
    }
}

/// The kind of error for an array that does not read as pairs: a type error
/// for an odd number of elements, else the error of the first element that
/// does not read.
pub open spec fn pairs_rejection<K: RedisDeserializationProtocol, V: RedisDeserializationProtocol>(
    a: Seq<ReplyView>,
) -> ErrorKind {
    if a.len() % 2 != 0 {
        ErrorKind::TypeError
    } else {
        first_pair_rejection::<K, V>(a, 0)
    }
}

pub open spec fn first_pair_rejection<K: RedisDeserializationProtocol, V: RedisDeserializationProtocol>(
    a: Seq<ReplyView>,
    from: int,
) -> ErrorKind
    decreases a.len() - from,
{
    if from < 0 || from >= a.len() {
        ErrorKind::TypeError
    } else if !element_accepted::<K, V>(a, from) {
        if from % 2 == 0 {
            K::rejection(a[from])
        } else {
            V::rejection(a[from])
        }
    } else {
        first_pair_rejection::<K, V>(a, from + 1)
    }
}

/// Whether `ps` are the pairs that the array `a` reads as.
pub open spec fn pairs_yield<K: RedisDeserializationProtocol, V: RedisDeserializationProtocol>(
    a: Seq<ReplyView>,
    ps: Seq<(K, V)>,
) -> bool {
    &&& 2 * ps.len() == a.len()
    &&& forall|j: int|
        0 <= j < ps.len() ==> K::yields(a[2 * j], (#[trigger] ps[j]).0) && V::yields(a[2 * j + 1], ps[j].1)
}

proof fn lemma_first_pair_rejection<K: RedisDeserializationProtocol, V: RedisDeserializationProtocol>(
    a: Seq<ReplyView>,
    from: int,
    k: int,
)
    requires
        0 <= from <= k < a.len(),
        forall|i: int| from <= i < k ==> #[trigger] element_accepted::<K, V>(a, i),
        !element_accepted::<K, V>(a, k),
    ensures
        first_pair_rejection::<K, V>(a, from) == if k % 2 == 0 {
            K::rejection(a[k])
        } else {
            V::rejection(a[k])
        },
    decreases k - from,
{
    if from < k {
        lemma_first_pair_rejection::<K, V>(a, from + 1, k);
    }
}

/// Reads an array reply as key/value pairs, in order: the elements at even
/// positions as keys, the others as values. An array with an odd number of
/// elements is a type error.
pub fn deserialize_pairs<K: RedisDeserializationProtocol, V: RedisDeserializationProtocol>(
    reply: Reply,
) -> (r: RedisResult<Vec<(K, V)>>)
    ensures
        r is Ok <==> (reply@ matches ReplyView::Array(a) && pairs_accepted::<K, V>(a)),
        r matches Ok(ps) ==> (reply@ matches ReplyView::Array(a) && pairs_yield::<K, V>(a, ps@)),
        r matches Err(e) ==> e.kind() == match reply@ {
            ReplyView::Array(a) => pairs_rejection::<K, V>(a),
            _ => ErrorKind::TypeError,
        },
{
    let ghost whole = reply@;
    match reply {
        Reply::Arrays(array) => {
            let ghost a = whole->Array_0;
            let ghost items = array@;
            assert(a.len() == items.len());
            assert forall|i: int| 0 <= i < a.len() implies a[i] == (#[trigger] items[i])@ by {}
            if array.len() % 2 != 0 {
                return Err(RedisError::custom(ErrorKind::TypeError, "odd number of elements for pairs"));
            }
            let mut pairs: Vec<(K, V)> = Vec::new();
            let mut pending: Option<K> = None;
            for ele in it: array
                invariant
                    it.seq() == items,
                    whole == ReplyView::Array(a),
                    whole == reply@,
                    a.len() == items.len(),
                    a.len() % 2 == 0,
                    forall|i: int| 0 <= i < a.len() ==> a[i] == (#[trigger] items[i])@,
                    2 * pairs@.len() + (if pending is Some { 1int } else { 0int }) == it.index(),
                    pending is Some <==> it.index() % 2 == 1,
                    pending matches Some(k) ==> K::yields(a[it.index() - 1], k),
                    forall|i: int| 0 <= i < it.index() ==> #[trigger] element_accepted::<K, V>(a, i),
                    forall|j: int|
                        0 <= j < pairs@.len() ==> K::yields(a[2 * j], (#[trigger] pairs@[j]).0)
                            && V::yields(a[2 * j + 1], pairs@[j].1),
            {
                let ghost k = it.index();
                assert(ele@ == a[k as int]);
                let held = pending;
                pending = None;
                match held {
                    None => {
                        match K::deserialization(ele) {
                            Ok(key) => {
                                pending = Some(key);
                            },
                            Err(e) => {
                                proof {
                                    lemma_first_pair_rejection::<K, V>(a, 0, k as int);
                                    assert(!element_accepted::<K, V>(a, k as int));
                                }
                                return Err(e);
                            },
                        }
                    },
                    Some(key) => {
                        match V::deserialization(ele) {
                            Ok(value) => {
                                pairs.push((key, value));
                                proof {
                                    let n = pairs@.len() - 1;
                                    assert(2 * n == k - 1);
                                    assert(K::yields(a[2 * n], pairs@[n].0));
                                    assert(V::yields(a[2 * n + 1], pairs@[n].1));
                                }
                            },
                            Err(e) => {
                                proof {
                                    lemma_first_pair_rejection::<K, V>(a, 0, k as int);
                                    assert(!element_accepted::<K, V>(a, k as int));
                                }
                                return Err(e);
                            },
                        }
                    },
                }
            }
            Ok(pairs)
        },
        _ => Err(RedisError::custom(ErrorKind::TypeError, "reply is not an array")),
    }
}

/// The map that inserting the pairs in order builds: a later pair wins over an
/// earlier one with the same key.
pub open spec fn map_of_pairs<K, V>(ps: Seq<(K, V)>) -> Map<K, V>
    decreases ps.len(),
{
    if ps.len() == 0 {
        Map::empty()
    } else {
        map_of_pairs(ps.drop_last()).insert(ps.last().0, ps.last().1)
    }
}

/// Reads an array reply of alternating keys and values as a map.
///
/// What the map holds is stated where vstd's model of hashing holds for `K`
/// (the integer types and `bool`).
impl<K: RedisDeserializationProtocol + Eq + Hash, V: RedisDeserializationProtocol> RedisDeserializationProtocol for HashMap<K, V> {
    open spec fn accepts(reply: ReplyView) -> bool {
        reply matches ReplyView::Array(a) && pairs_accepted::<K, V>(a)
    }

    open spec fn rejection(reply: ReplyView) -> ErrorKind {
        match reply {
            ReplyView::Array(a) => pairs_rejection::<K, V>(a),
            _ => ErrorKind::TypeError,
        }
    }

    open spec fn yields(reply: ReplyView, value: Self) -> bool {
        reply matches ReplyView::Array(a) && (obeys_key_model::<K>() ==> exists|ps: Seq<(K, V)>|
            pairs_yield::<K, V>(a, ps) && value@ == map_of_pairs(ps))
    }

    fn deserialization(reply: Reply) -> (r: RedisResult<HashMap<K, V>>) {
        let pairs = match deserialize_pairs::<K, V>(reply) {
            Ok(pairs) => pairs,
            Err(e) => return Err(e),
        };
        let ghost ps = pairs@;
        let mut map: HashMap<K, V> = HashMap::new();
        for pair in it: pairs
            invariant
                it.seq() == ps,
                obeys_key_model::<K>() ==> map@ == map_of_pairs(ps.subrange(0, it.index() as int)),
        {
            let ghost k = it.index();
            let (key, value) = pair;
            map.insert(key, value);
            proof {
                broadcast use vstd::std_specs::hash::axiom_random_state_builds_valid_hashers;
                let done = ps.subrange(0, k + 1);
                assert(done.drop_last() =~= ps.subrange(0, k as int));
            }
        }
        proof {
            assert(ps.subrange(0, ps.len() as int) =~= ps);
        }
        Ok(map)
    }
}

/// Reads an array reply of alternating keys and values as an ordered map.
///
/// What the map holds is stated where vstd's model of ordering holds for `K`.
impl<K: RedisDeserializationProtocol + Ord, V: RedisDeserializationProtocol> RedisDeserializationProtocol for BTreeMap<K, V> {
    open spec fn accepts(reply: ReplyView) -> bool {
        reply matches ReplyView::Array(a) && pairs_accepted::<K, V>(a)
    }

    open spec fn rejection(reply: ReplyView) -> ErrorKind {
        match reply {
            ReplyView::Array(a) => pairs_rejection::<K, V>(a),
            _ => ErrorKind::TypeError,
        }
    }

    open spec fn yields(reply: ReplyView, value: Self) -> bool {
        reply matches ReplyView::Array(a) && (key_obeys_cmp_spec::<K>() ==> exists|ps: Seq<(K, V)>|
            pairs_yield::<K, V>(a, ps) && value@ == map_of_pairs(ps))
    }

    fn deserialization(reply: Reply) -> (r: RedisResult<BTreeMap<K, V>>) {
        let pairs = match deserialize_pairs::<K, V>(reply) {
            Ok(pairs) => pairs,
            Err(e) => return Err(e),
        };
        let ghost ps = pairs@;
        let mut map: BTreeMap<K, V> = BTreeMap::new();
        for pair in it: pairs
            invariant
                it.seq() == ps,
                key_obeys_cmp_spec::<K>() ==> map@ == map_of_pairs(ps.subrange(0, it.index() as int)),
        {
            let ghost k = it.index();
            let (key, value) = pair;
            map.insert(key, value);
            proof {
                let done = ps.subrange(0, k + 1);
                assert(done.drop_last() =~= ps.subrange(0, k as int));
            }
        }
        proof {
            assert(ps.subrange(0, ps.len() as int) =~= ps);
        }
        Ok(map)
    }
}

/// Reads an array reply as a set of its elements.
///
/// What the set holds is stated where vstd's model of hashing holds for `T`.
impl<T: RedisDeserializationProtocol + Eq + Hash> RedisDeserializationProtocol for HashSet<T> {
    open spec fn accepts(reply: ReplyView) -> bool {
        reply matches ReplyView::Array(a) && all_accepted::<T>(a)
    }

    open spec fn rejection(reply: ReplyView) -> ErrorKind {
        match reply {
            ReplyView::Array(a) => elements_rejection::<T>(a),
            _ => ErrorKind::TypeError,
        }
    }

    open spec fn yields(reply: ReplyView, value: Self) -> bool {
        reply matches ReplyView::Array(a) && (obeys_key_model::<T>() ==> exists|vs: Vec<T>|
            <Vec<T> as RedisDeserializationProtocol>::yields(reply, vs) && value@ == vs@.to_set())
    }

    fn deserialization(reply: Reply) -> (r: RedisResult<HashSet<T>>) {
        let ghost rv = reply@;
        let values = match <Vec<T> as RedisDeserializationProtocol>::deserialization(reply) {
            Ok(values) => values,
            Err(e) => return Err(e),
        };
        let ghost vs = values;
        let mut set: HashSet<T> = HashSet::new();
        for v in it: values
            invariant
                it.seq() == vs@,
                obeys_key_model::<T>() ==> set@ == vs@.subrange(0, it.index() as int).to_set(),
        {
            let ghost k = it.index();
            set.insert(v);
            proof {
                broadcast use vstd::std_specs::hash::axiom_random_state_builds_valid_hashers;
                let done = vs@.subrange(0, k + 1);
                assert(done =~= vs@.subrange(0, k as int).push(vs@[k as int]));
                vs@.subrange(0, k as int).lemma_push_to_set_commute(vs@[k as int]);
            }
        }
        proof {
            assert(vs@.subrange(0, vs@.len() as int) =~= vs@);
        }
        Ok(set)
    }
}

} // verus!
