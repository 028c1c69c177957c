//! A client-side engine for the Redis serialization protocol: the request
//! encoder, the reply decoder, the conversions between replies and
//! application values, and a bounded pool of idle connections.
use vstd::prelude::*;

pub mod error;
pub mod numbers;
pub mod connection;
pub mod codec;
pub mod client;
pub mod protocol;
pub mod pool;
pub mod config;
pub mod laws;

pub use error::{ErrorKind, RedisError};

verus! {

/// The result type of every fallible operation of this library.
pub type RedisResult<T> = Result<T, RedisError>;

/// The kinds of value that a "type of key" query reports.
#[derive(Debug, Copy, Clone, PartialEq, Eq, Structural)]
pub enum DataType {
    String,
    List,
    UnorderedSet,
}

} // verus!
