use redisclient::codec::decode;
use redisclient::connection::{Reply, SingleStrings};
use redisclient::protocol::RedisDeserializationProtocol;
use redisclient::ErrorKind;

fn complete(input: &[u8]) -> (Reply, usize) {
    match decode(input) {
        Ok(Some(done)) => done,
        Ok(None) => panic!("reply reported incomplete"),
        Err(e) => panic!("decode failed: {:?} {:?}", e.kind(), e.detail()),
    }
}

fn error_kind(input: &[u8]) -> ErrorKind {
    match decode(input) {
        Err(e) => e.kind(),
        Ok(_) => panic!("decode should fail"),
    }
}

#[test]
fn decode_bulk_string_hello() {
    let (reply, used) = complete(b"$5\r\nhello\r\n");
    assert_eq!(used, 11);
    assert_eq!(reply, Reply::BulkStrings(b"hello".to_vec()));
    let text = String::deserialization(reply).unwrap();
    assert_eq!(text, "hello");
}

#[test]
fn decode_nil_and_empty_are_distinct() {
    let (nil, used_nil) = complete(b"$-1\r\n");
    let (empty, used_empty) = complete(b"$0\r\n\r\n");
    assert_eq!(nil, Reply::Nil);
    assert_eq!(used_nil, 5);
    assert_eq!(empty, Reply::BulkStrings(Vec::new()));
    assert_eq!(used_empty, 6);
    assert_ne!(nil, empty);
}

#[test]
fn decode_empty_array() {
    let (reply, used) = complete(b"*0\r\n");
    assert_eq!(reply, Reply::Arrays(Vec::new()));
    assert_eq!(used, 4);
}

#[test]
fn decode_three_element_array_in_order() {
    let (reply, used) = complete(b"*3\r\n$3\r\none\r\n$-1\r\n$5\r\nthree\r\n");
    assert_eq!(used, 29);
    assert_eq!(
        reply,
        Reply::Arrays(vec![
            Reply::BulkStrings(b"one".to_vec()),
            Reply::Nil,
            Reply::BulkStrings(b"three".to_vec()),
        ])
    );
}

#[test]
fn decode_error_line_is_from_server() {
    let e = decode(b"-ERR some message\r\n").err().unwrap();
    assert_eq!(e.kind(), ErrorKind::FromServer);
    assert_eq!(e.detail(), Some("ERR some message"));
    assert!(!e.is_io_error());
}

#[test]
fn decode_wrongpass_is_authentication_failure() {
    let e = decode(b"-WRONGPASS invalid username-password pair\r\n").err().unwrap();
    assert_eq!(e.kind(), ErrorKind::AuthenticationFailed);
    assert_eq!(e.detail(), Some("WRONGPASS invalid username-password pair"));
}

#[test]
fn decode_status_tokens() {
    assert_eq!(complete(b"+OK\r\n"), (Reply::SingleStrings(SingleStrings::Okay), 5));
    assert_eq!(complete(b"+PONG\r\n"), (Reply::SingleStrings(SingleStrings::Pong), 7));
    assert_eq!(complete(b"+string\r\n").0, Reply::SingleStrings(SingleStrings::String));
    assert_eq!(complete(b"+list\r\n").0, Reply::SingleStrings(SingleStrings::List));
    assert_eq!(complete(b"+set\r\n").0, Reply::SingleStrings(SingleStrings::UnorderedSet));
}

#[test]
fn decode_unknown_status_is_response_error() {
    assert_eq!(error_kind(b"+QUEUED\r\n"), ErrorKind::ResponseError);
}

#[test]
fn decode_integer_line_keeps_digits() {
    let (reply, used) = complete(b":-42\r\nrest");
    assert_eq!(reply, Reply::Integers(b"-42".to_vec()));
    assert_eq!(used, 6);
    assert_eq!(i64::deserialization(reply).unwrap(), -42);
}

#[test]
fn decode_malformed_input() {
    assert_eq!(error_kind(b"\r\n"), ErrorKind::ResponseError);
    let e = decode(b"?what\r\n").err().unwrap();
    assert_eq!(e.kind(), ErrorKind::ResponseError);
    assert_eq!(e.detail(), Some("invalid prefix 0x3f"));
    let e = decode(b"\xffx\r\n").err().unwrap();
    assert_eq!(e.detail(), Some("invalid prefix 0xff"));
    assert_eq!(error_kind(b"$abc\r\n"), ErrorKind::ResponseError);
    assert_eq!(error_kind(b"*-1\r\n"), ErrorKind::ResponseError);
    assert_eq!(error_kind(b"+OK\n"), ErrorKind::ResponseError);
    assert_eq!(error_kind(b"*1\r\n:1\r\n"), ErrorKind::ResponseError);
}

#[test]
fn decode_incomplete_input() {
    assert!(matches!(decode(b""), Ok(None)));
    assert!(matches!(decode(b"$5\r\nhel"), Ok(None)));
    assert!(matches!(decode(b"*2\r\n$3\r\nfoo\r\n"), Ok(None)));
    assert!(matches!(decode(b"+OK"), Ok(None)));
}

#[test]
fn decode_leaves_following_bytes() {
    let (reply, used) = complete(b"$3\r\nfoo\r\n$3\r\nbar\r\n");
    assert_eq!(reply, Reply::BulkStrings(b"foo".to_vec()));
    assert_eq!(used, 9);
}
