use redisclient::client::{Command, ListBeforeOrAfter};
use redisclient::config::RedisConfig;
use redisclient::error::IoErrorKind;
use redisclient::pool::ConnectionPool;
use redisclient::{ErrorKind, RedisError};

#[test]
fn encode_set_command() {
    let mut cmd = Command::new("SET");
    cmd.arg("key").arg("42");
    assert_eq!(cmd.into_vec(), b"*3\r\n$3\r\nSET\r\n$3\r\nkey\r\n$2\r\n42\r\n".to_vec());
}

#[test]
fn encode_command_with_typed_arguments() {
    let mut cmd = Command::new("LINSERT");
    cmd.arg("mylist").arg(ListBeforeOrAfter::Before).arg(String::from("World")).arg(-5i64);
    assert_eq!(
        cmd.into_vec(),
        b"*5\r\n$7\r\nLINSERT\r\n$6\r\nmylist\r\n$6\r\nBEFORE\r\n$5\r\nWorld\r\n$2\r\n-5\r\n".to_vec()
    );
    assert_eq!(Command::new("PING").into_vec(), b"*1\r\n$4\r\nPING\r\n".to_vec());
}

#[test]
fn pool_reuses_oldest_and_evicts_oldest() {
    let mut pool: ConnectionPool<u32> = ConnectionPool::new(2, String::from("127.0.0.1:6379"));
    assert!(matches!(pool.get(), Ok(None)));
    pool.put(1);
    pool.put(2);
    pool.put(3);
    assert_eq!(pool.idle_count(), 2);
    assert_eq!(pool.get().unwrap(), Some(2));
    assert_eq!(pool.get().unwrap(), Some(3));
    assert_eq!(pool.get().unwrap(), None);
    assert_eq!(pool.address(), "127.0.0.1:6379");
    assert_eq!(pool.capacity(), 2);
}

#[test]
fn pool_cycles_stay_within_capacity() {
    let mut pool: ConnectionPool<u32> = ConnectionPool::new(3, String::from("a:1"));
    let mut next = 0u32;
    for _ in 0..4 {
        let conn = match pool.get().unwrap() {
            Some(c) => c,
            None => {
                next += 1;
                next
            }
        };
        pool.put(conn);
        assert!(pool.idle_count() <= 3);
    }
    assert_eq!(next, 1);
    assert_eq!(pool.idle_count(), 1);
}

#[test]
fn pool_with_no_room_keeps_nothing() {
    let mut pool: ConnectionPool<u32> = ConnectionPool::new(0, String::from("a:1"));
    pool.put(7);
    assert_eq!(pool.idle_count(), 0);
}

#[test]
fn closed_pool_refuses_checkout_and_drops_checkin() {
    let mut pool: ConnectionPool<u32> = ConnectionPool::new(4, String::from("a:1"));
    pool.put(1);
    pool.close();
    assert!(pool.is_closed());
    assert_eq!(pool.idle_count(), 0);
    let e = pool.get().unwrap_err();
    assert_eq!(e.kind(), ErrorKind::ClientError);
    pool.put(2);
    assert_eq!(pool.idle_count(), 0);
    pool.close();
    assert!(pool.get().is_err());
}

#[test]
fn config_new_and_default() {
    let c = RedisConfig::new(String::from("10.0.0.1:7000"), 3, None, Some(String::from("pw")), 16);
    assert_eq!(c.address, "10.0.0.1:7000");
    assert_eq!(c.database, 3);
    assert_eq!(c.password.as_deref(), Some("pw"));
    assert_eq!(c.pool_capacity, 16);
    let d = RedisConfig::default();
    assert_eq!(d.address, "127.0.0.1:6379");
    assert_eq!(d.database, 0);
    assert!(d.username.is_none() && d.password.is_none());
    assert_eq!(d.pool_capacity, 8);
}

#[test]
fn error_predicates() {
    let e = RedisError::custom(ErrorKind::ClientError, "bad");
    assert_eq!(e.kind(), ErrorKind::ClientError);
    assert_eq!(e.detail(), Some("bad"));
    assert!(!e.is_io_error() && e.as_io_error().is_none());
    assert!(!e.is_timeout() && !e.is_connection_refuse() && !e.is_connection_dropped());

    let refused = RedisError::from_io(std::io::Error::new(std::io::ErrorKind::ConnectionRefused, "no"));
    assert_eq!(refused.kind(), ErrorKind::Io);
    assert!(refused.is_io_error());
    let inner = refused.as_io_error().unwrap();
    assert_eq!(inner.kind(), std::io::ErrorKind::ConnectionRefused);
    assert_eq!(inner.to_string(), "no");
    assert!(refused.is_connection_refuse() && !refused.is_timeout());
    assert_eq!(refused.detail(), None);

    let timed_out = RedisError::from_io(std::io::Error::new(std::io::ErrorKind::TimedOut, "slow"));
    assert!(timed_out.is_timeout() && !timed_out.is_connection_dropped());
    let would_block = RedisError::from_io(std::io::Error::new(std::io::ErrorKind::WouldBlock, "later"));
    assert!(would_block.is_timeout());
    let reset = RedisError::from_io(std::io::Error::new(std::io::ErrorKind::ConnectionReset, "gone"));
    assert!(reset.is_connection_dropped() && !reset.is_connection_refuse());
    let pipe = RedisError::from_io(std::io::Error::new(std::io::ErrorKind::BrokenPipe, "gone"));
    assert!(pipe.is_connection_dropped());
    let missing = RedisError::from_io(std::io::Error::new(std::io::ErrorKind::NotFound, "where"));
    assert!(missing.is_connection_refuse());
    let other = RedisError::from_io(std::io::Error::new(std::io::ErrorKind::Other, "odd"));
    assert!(!other.is_connection_refuse() && !other.is_timeout() && !other.is_connection_dropped());
    let _ = IoErrorKind::Other;
}
