use vstd::prelude::*;

verus! {

#[verifier::external_type_specification]
#[verifier::external_body]
pub struct ExIoError(std::io::Error);

/// The closed classification of failure causes.
#[derive(PartialEq, Eq, Copy, Clone, Debug, Structural)]
pub enum ErrorKind {
    /// The bytes received do not form a valid reply.
    ResponseError,
    /// The server rejected the credentials.
    AuthenticationFailed,
    /// A well-formed reply does not have the shape the caller asked for.
    TypeError,
    /// A socket operation failed.
    Io,
    /// A local precondition was violated (for instance, the pool is closed).
    ClientError,
    /// The server answered with an error line.
    FromServer,
}

/// What an I/O failure was, as far as the retry predicates tell causes apart.
#[derive(PartialEq, Eq, Copy, Clone, Debug, Structural)]
pub enum IoErrorKind {
    NotFound,
    ConnectionRefused,
    ConnectionReset,
    BrokenPipe,
    WouldBlock,
    TimedOut,
    Other,
}

#[derive(Debug)]
enum Repr {
    Io(std::io::Error, IoErrorKind),
    Custom(ErrorKind, String),
}

/// An error of this library: either an I/O failure, kept as it came, or a
/// failure of one of the other kinds with a description.
#[derive(Debug)]
pub struct RedisError {
    repr: Repr,
}

/// Relies on `std::io::Error::kind`, to tell apart the kinds of I/O failure
/// that callers retry on; every other kind becomes `Other`.
#[verifier::external_body]
fn io_error_kind(e: &std::io::Error) -> IoErrorKind {
    match e.kind() {
        std::io::ErrorKind::NotFound => IoErrorKind::NotFound,
        std::io::ErrorKind::ConnectionRefused => IoErrorKind::ConnectionRefused,
        std::io::ErrorKind::ConnectionReset => IoErrorKind::ConnectionReset,
        std::io::ErrorKind::BrokenPipe => IoErrorKind::BrokenPipe,
        std::io::ErrorKind::WouldBlock => IoErrorKind::WouldBlock,
        std::io::ErrorKind::TimedOut => IoErrorKind::TimedOut,
        _ => IoErrorKind::Other,
    }
}

impl RedisError {
    /// The kind of this error.
    pub closed spec fn spec_kind(&self) -> ErrorKind {
        match self.repr {
            Repr::Io(_, _) => ErrorKind::Io,
            Repr::Custom(kind, _) => kind,
        }
    }

    /// For an error that wraps an I/O failure, the kind of that failure.
    pub closed spec fn io_kind(&self) -> Option<IoErrorKind> {
        match self.repr {
            Repr::Io(_, k) => Some(k),
            Repr::Custom(_, _) => None,
        }
    }

    /// For an error that wraps an I/O failure, that failure.
    pub closed spec fn wrapped_io_error(&self) -> Option<std::io::Error> {
        match self.repr {
            Repr::Io(e, _) => Some(e),
            Repr::Custom(_, _) => None,
        }
    }

    /// For an error that does not wrap an I/O failure, its description.
    pub closed spec fn detail_text(&self) -> Option<Seq<char>> {
        match self.repr {
            Repr::Io(_, _) => None,
            Repr::Custom(_, desc) => Some(desc@),
        }
    }

    /// An error of the given kind with the given description.
    pub fn custom(kind: ErrorKind, desc: &str) -> (r: RedisError)
        ensures
            r.spec_kind() == kind,
            r.io_kind() is None,
            r.detail_text() == Some(desc@),
    {
        RedisError { repr: Repr::Custom(kind, desc.to_string()) }
    }

    /// An error that wraps an I/O failure.
    pub fn from_io(e: std::io::Error) -> (r: RedisError)
        ensures
            r.spec_kind() == ErrorKind::Io,
            r.io_kind() is Some,
            r.wrapped_io_error() == Some(e),
            r.detail_text() is None,
    {
        let k = io_error_kind(&e);
        RedisError { repr: Repr::Io(e, k) }
    }

    #[verifier::when_used_as_spec(spec_kind)]
    pub fn kind(&self) -> (r: ErrorKind)
        ensures
            r == self.spec_kind(),
    {
        match &self.repr {
            Repr::Io(_, _) => ErrorKind::Io,
            Repr::Custom(kind, _) => *kind,
        }
    }

    pub fn is_io_error(&self) -> (r: bool)
        ensures
            r == self.io_kind() is Some,
    {
        self.as_io_error().is_some()
    }

    pub fn as_io_error(&self) -> (r: Option<&std::io::Error>)
        ensures
            r is Some <==> self.io_kind() is Some,
            r is Some <==> self.wrapped_io_error() is Some,
            r matches Some(e) ==> self.wrapped_io_error() == Some(*e),
    {
        match &self.repr {
            Repr::Io(e, _) => Some(e),
            Repr::Custom(_, _) => None,
        }
    }

    /// The description of an error that does not wrap an I/O failure.
    pub fn detail(&self) -> (r: Option<&str>)
        ensures
            r is Some <==> self.detail_text() is Some,
            r matches Some(s) ==> self.detail_text() == Some(s@),
    {
        match &self.repr {
            Repr::Io(_, _) => None,
            Repr::Custom(_, desc) => Some(desc.as_str()),
        }
    }

    /// Whether the server could not be reached at all.
    pub fn is_connection_refuse(&self) -> (r: bool)
        ensures
            r == (self.io_kind() == Some(IoErrorKind::ConnectionRefused)
                || self.io_kind() == Some(IoErrorKind::NotFound)),
    {
        match &self.repr {
            Repr::Io(_, k) => matches!(k, IoErrorKind::ConnectionRefused | IoErrorKind::NotFound),
            Repr::Custom(_, _) => false,
        }
    }

    /// Whether a socket operation ran out of time.
    pub fn is_timeout(&self) -> (r: bool)
        ensures
            r == (self.io_kind() == Some(IoErrorKind::TimedOut)
                || self.io_kind() == Some(IoErrorKind::WouldBlock)),
    {
        match &self.repr {
            Repr::Io(_, k) => matches!(k, IoErrorKind::TimedOut | IoErrorKind::WouldBlock),
            Repr::Custom(_, _) => false,
        }
    }

    /// Whether the peer dropped an established connection.
    pub fn is_connection_dropped(&self) -> (r: bool)
        ensures
            r == (self.io_kind() == Some(IoErrorKind::ConnectionReset)
                || self.io_kind() == Some(IoErrorKind::BrokenPipe)),
    {
        match &self.repr {
            Repr::Io(_, k) => matches!(k, IoErrorKind::ConnectionReset | IoErrorKind::BrokenPipe),
            Repr::Custom(_, _) => false,
        }
    }
}

} // verus!
