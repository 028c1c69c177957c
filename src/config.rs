use vstd::prelude::*;

verus! {

/// A source of connection settings.
pub trait ToRedisConnectionConfig {
    fn to_redis_connection_config(&self) -> RedisConfig;
}

/// The settings a client is built from.
pub struct RedisConfig {
    /// The server address, `host:port`.
    pub address: String,
    /// The database selected after connecting; 0 selects none.
    pub database: u8,
    pub username: Option<String>,
    /// Where present, the client authenticates after connecting.
    pub password: Option<String>,
    /// The most idle connections the pool keeps.
    pub pool_capacity: usize,
}

impl RedisConfig {
    pub fn new(
        address: String,
        database: u8,
        username: Option<String>,
        password: Option<String>,
        pool_capacity: usize,
    ) -> (r: Self)
        ensures
            r.address == address,
            r.database == database,
            r.username == username,
            r.password == password,
            r.pool_capacity == pool_capacity,
    {
        RedisConfig { address, database, username, password, pool_capacity }
    }
}

/// The address of a server on the local machine at the standard port.
pub open spec fn default_address() -> Seq<char> {
    seq!['1', '2', '7', '.', '0', '.', '0', '.', '1', ':', '6', '3', '7', '9']
}

impl Default for RedisConfig {
    /// The local server at the standard port, database 0, no credentials,
    /// and room for 8 idle connections.
    fn default() -> (r: Self)
        ensures
            r.address@ == default_address(),
            r.database == 0,
            r.username is None,
            r.password is None,
            r.pool_capacity == 8,
    {
        let address = String::from_str("127.0.0.1:6379");
        proof {
            reveal_strlit("127.0.0.1:6379");
        }
        RedisConfig { address, database: 0, username: None, password: None, pool_capacity: 8 }
    }
}

} // verus!
