use redisclient::protocol::RedisSerializationProtocol;

#[test]
pub fn test_vector() {
    let data = b"Hello world".to_vec();

    let got = data.serialization();

    let expected = Vec::from("$11\r\nHello world\r\n");
    assert_eq!(expected, got);
}

#[test]
pub fn test_string() {
    let s = String::from("Hello world");

    let got = s.serialization();

    let expected = vec![
        36, 49, 49, 13, 10, 72, 101, 108, 108, 111, 32, 119, 111, 114, 108, 100, 13, 10,
    ];
    assert_eq!(expected, got);
}

#[test]
pub fn test_u64() {
    let num: u64 = 132;

    let got = num.serialization();

    let expected = Vec::from("$3\r\n132\r\n");
    assert_eq!(expected, got);
}

#[test]
pub fn test_i64() {
    let num: i64 = -321;

    let got = num.serialization();

    let expected = Vec::from("$4\r\n-321\r\n");
    assert_eq!(expected, got);
}

#[test]
pub fn test_integer_extremes_serialization() {
    assert_eq!(Vec::from("$4\r\n-128\r\n"), i8::MIN.serialization());
    assert_eq!(Vec::from("$3\r\n255\r\n"), u8::MAX.serialization());
    assert_eq!(Vec::from("$1\r\n0\r\n"), 0u32.serialization());
    assert_eq!(
        Vec::from("$40\r\n-170141183460469231731687303715884105728\r\n"),
        i128::MIN.serialization()
    );
    assert_eq!(
        Vec::from("$39\r\n340282366920938463463374607431768211455\r\n"),
        u128::MAX.serialization()
    );
}

#[test]
pub fn test_str_and_list_position_serialization() {
    assert_eq!(Vec::from("$3\r\nkey\r\n"), "key".serialization());
    assert_eq!(Vec::from("$0\r\n\r\n"), "".serialization());
    assert_eq!(Vec::from("$4\r\nh\u{e9}!\r\n"), "h\u{e9}!".serialization());
}

#[test]
pub fn float_text_is_sent_as_a_bulk_string() {
    let text = (-1.23f64).to_string();
    assert_eq!(Vec::from("$5\r\n-1.23\r\n"), text.serialization());
}
