use std::collections::{BTreeMap, HashMap, HashSet};

use redisclient::codec::decode;
use redisclient::connection::{Reply, SingleStrings};
use redisclient::protocol::{deserialize_pairs, RedisDeserializationProtocol, RedisSerializationProtocol};
use redisclient::{DataType, ErrorKind};

fn decoded(input: &[u8]) -> Reply {
    match decode(input) {
        Ok(Some((reply, _))) => reply,
        _ => panic!("expected a complete reply"),
    }
}

fn bulk(s: &str) -> Reply {
    Reply::BulkStrings(s.as_bytes().to_vec())
}

#[test]
fn map_of_text_from_array() {
    let reply = decoded(b"*2\r\n$3\r\nfoo\r\n$3\r\nbar\r\n");
    let map = HashMap::<String, String>::deserialization(reply).unwrap();
    assert_eq!(map.len(), 1);
    assert_eq!(map.get("foo").map(|v| v.as_str()), Some("bar"));
}

#[test]
fn map_later_pair_wins() {
    let reply = Reply::Arrays(vec![bulk("1"), bulk("a"), bulk("1"), bulk("b")]);
    let map = HashMap::<u32, String>::deserialization(reply).unwrap();
    assert_eq!(map.len(), 1);
    assert_eq!(map[&1], "b");
}

#[test]
fn map_rejects_odd_length() {
    let reply = Reply::Arrays(vec![bulk("foo"), bulk("bar"), bulk("baz")]);
    let e = HashMap::<String, String>::deserialization(reply).unwrap_err();
    assert_eq!(e.kind(), ErrorKind::TypeError);
}

#[test]
fn pairs_keep_order() {
    let reply = Reply::Arrays(vec![bulk("a"), bulk("1"), bulk("b"), bulk("2")]);
    let pairs = deserialize_pairs::<String, i64>(reply).unwrap();
    assert_eq!(pairs, vec![("a".to_string(), 1), ("b".to_string(), 2)]);
}

#[test]
fn pairs_report_first_bad_element() {
    let reply = Reply::Arrays(vec![bulk("a"), bulk("x")]);
    let e = deserialize_pairs::<String, i64>(reply).unwrap_err();
    assert_eq!(e.kind(), ErrorKind::TypeError);
    let e = deserialize_pairs::<String, String>(Reply::Nil).unwrap_err();
    assert_eq!(e.kind(), ErrorKind::TypeError);
}

#[test]
fn set_of_members() {
    let reply = Reply::Arrays(vec![bulk("one"), bulk("two"), bulk("one")]);
    let set = HashSet::<String>::deserialization(reply).unwrap();
    assert_eq!(set.len(), 2);
    assert!(set.contains("one") && set.contains("two"));
}

#[test]
fn vec_of_text_and_failure() {
    let reply = Reply::Arrays(vec![bulk("x"), Reply::Nil, bulk("z")]);
    let values = Vec::<String>::deserialization(reply).unwrap();
    assert_eq!(values, vec!["x".to_string(), String::new(), "z".to_string()]);
    let reply = Reply::Arrays(vec![bulk("1"), bulk("nope")]);
    assert_eq!(Vec::<u64>::deserialization(reply).unwrap_err().kind(), ErrorKind::TypeError);
    assert_eq!(Vec::<u64>::deserialization(bulk("1")).unwrap_err().kind(), ErrorKind::TypeError);
}

#[test]
fn text_conversions() {
    assert_eq!(String::deserialization(Reply::Nil).unwrap(), "");
    assert_eq!(String::deserialization(Reply::SingleStrings(SingleStrings::Okay)).unwrap(), "");
    let e = String::deserialization(Reply::SingleStrings(SingleStrings::List)).unwrap_err();
    assert_eq!(e.kind(), ErrorKind::TypeError);
    let e = String::deserialization(Reply::BulkStrings(vec![0xff, 0xfe])).unwrap_err();
    assert_eq!(e.kind(), ErrorKind::TypeError);
    let e = String::deserialization(Reply::Integers(b"1".to_vec())).unwrap_err();
    assert_eq!(e.kind(), ErrorKind::TypeError);
    assert_eq!(String::deserialization(bulk("h\u{e9}")).unwrap(), "h\u{e9}");
}

#[test]
fn number_conversions() {
    assert_eq!(u8::deserialization(bulk("255")).unwrap(), 255);
    assert_eq!(u8::deserialization(bulk("256")).unwrap_err().kind(), ErrorKind::TypeError);
    assert_eq!(u32::deserialization(bulk("-1")).unwrap_err().kind(), ErrorKind::TypeError);
    assert_eq!(i8::deserialization(bulk("-128")).unwrap(), -128);
    assert_eq!(i8::deserialization(bulk("+127")).unwrap(), 127);
    assert_eq!(i16::deserialization(bulk("")).unwrap_err().kind(), ErrorKind::TypeError);
    assert_eq!(isize::deserialization(Reply::Integers(b"-7".to_vec())).unwrap(), -7);
    assert_eq!(i128::deserialization(bulk("-170141183460469231731687303715884105728")).unwrap(), i128::MIN);
    assert_eq!(u128::deserialization(bulk("340282366920938463463374607431768211456")).unwrap_err().kind(), ErrorKind::TypeError);
    assert_eq!(u64::deserialization(Reply::Nil).unwrap_err().kind(), ErrorKind::TypeError);
}

#[test]
fn round_trip_through_echo() {
    let v: i32 = -2147483648;
    let echoed = decoded(&v.serialization());
    assert_eq!(i32::deserialization(echoed).unwrap(), v);
    let v: usize = 123456;
    assert_eq!(usize::deserialization(decoded(&v.serialization())).unwrap(), v);
    let s = String::from("caf\u{e9} \r\n");
    assert_eq!(String::deserialization(decoded(&s.serialization())).unwrap(), s);
}

#[test]
fn unit_bool_and_data_type() {
    assert!(<()>::deserialization(Reply::SingleStrings(SingleStrings::Pong)).is_ok());
    let e = <()>::deserialization(Reply::SingleStrings(SingleStrings::String)).unwrap_err();
    assert_eq!(e.kind(), ErrorKind::TypeError);
    assert_eq!(<()>::deserialization(Reply::Nil).unwrap_err().kind(), ErrorKind::TypeError);
    assert!(bool::deserialization(Reply::Integers(b"1".to_vec())).unwrap());
    assert!(!bool::deserialization(Reply::Integers(b"0".to_vec())).unwrap());
    assert_eq!(bool::deserialization(bulk("-1")).unwrap_err().kind(), ErrorKind::TypeError);
    let t = DataType::deserialization(Reply::SingleStrings(SingleStrings::UnorderedSet)).unwrap();
    assert_eq!(t, DataType::UnorderedSet);
    let t = DataType::deserialization(Reply::SingleStrings(SingleStrings::List)).unwrap();
    assert_eq!(t, DataType::List);
    let e = DataType::deserialization(Reply::SingleStrings(SingleStrings::Okay)).unwrap_err();
    assert_eq!(e.kind(), ErrorKind::TypeError);
    assert_eq!(DataType::deserialization(bulk("string")).unwrap_err().kind(), ErrorKind::TypeError);
}

#[test]
fn ordered_map_from_array() {
    let reply = Reply::Arrays(vec![bulk("b"), bulk("2"), bulk("a"), bulk("1")]);
    let map = BTreeMap::<String, u8>::deserialization(reply).unwrap();
    assert_eq!(map.into_iter().collect::<Vec<_>>(), vec![("a".to_string(), 1), ("b".to_string(), 2)]);
    let reply = Reply::Arrays(vec![bulk("a")]);
    assert_eq!(BTreeMap::<String, u8>::deserialization(reply).unwrap_err().kind(), ErrorKind::TypeError);
}
