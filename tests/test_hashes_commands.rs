use redisclient::client::ListBeforeOrAfter;
use redisclient::protocol::RedisSerializationProtocol;

#[test]
pub fn test_hscan() {}

#[test]
pub fn test_list_position_serialization() {
    assert_eq!(Vec::from("$6\r\nBEFORE\r\n"), ListBeforeOrAfter::Before.serialization());
    assert_eq!(Vec::from("$5\r\nAFTER\r\n"), ListBeforeOrAfter::After.serialization());
}
