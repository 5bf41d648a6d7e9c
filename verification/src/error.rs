//! The error taxonomy of the boundary layer, and how failures reported by the
//! driver and by the pool are folded into it.

use vstd::prelude::*;
use crate::text::{decimal, signed_decimal, push_decimal, push_signed_decimal, push_text};

verus! {

/// What can go wrong at the boundary.
#[derive(Debug)]
pub enum MssqlError {
    /// Malformed or unsupported configuration.
    Config(String),
    /// Failure to establish or use a connection.
    Connection(String),
    /// Statement execution or value conversion failed.
    Query(String),
    /// Begin, commit or rollback failed, or the isolation level is unknown.
    Transaction(String),
    /// The pool could not hand out a connection.
    Pool(String),
    /// The operation was cancelled.
    Cancelled,
}

/// A failure as the driver reports it, reduced to what the mapping reads.
#[derive(Debug)]
pub enum ClientFailure {
    Config(String),
    Connection(String),
    ConnectionClosed,
    ConnectTimeout,
    ConnectionTimeout,
    TlsTimeout,
    CommandTimeout,
    Query(String),
    Transaction(String),
    /// An error raised by the server: its number, severity class and message.
    Server { number: i32, class: u8, message: String },
    /// Authentication failed; the text is the driver's description.
    Authentication(String),
    Cancelled,
    /// Any other failure, by the driver's description.
    Other(String),
}

/// A failure as the pool reports it, reduced to what the mapping reads.
#[derive(Debug)]
pub enum PoolFailure {
    Timeout,
    /// Acquisition gave up after this many milliseconds.
    AcquisitionTimeout { millis: u128 },
    PoolClosed,
    MaxConnectionsReached { max: u32 },
    ConnectionCreation(String),
    Connection(String),
    UnhealthyConnection(String),
    ResetFailed(String),
    Configuration(String),
    ValidationFailed(String),
}

/// Message for an error raised by the server.
pub open spec fn server_error_text(number: int, class: int, message: Seq<char>) -> Seq<char> {
    "SQL Server error "@ + signed_decimal(number) + " (severity "@ + decimal(class as nat) + "): "@
        + message
}

/// The variant and message that a driver failure maps to.
pub open spec fn client_failure_kind(e: ClientFailure) -> (ErrorKind, Seq<char>) {
    match e {
        ClientFailure::Config(m) => (ErrorKind::Config, m@),
        ClientFailure::Connection(m) => (ErrorKind::Connection, m@),
        ClientFailure::ConnectionClosed => (ErrorKind::Connection, "Connection closed"@),
        ClientFailure::ConnectTimeout | ClientFailure::ConnectionTimeout | ClientFailure::TlsTimeout => (
            ErrorKind::Connection,
            "Connection timeout"@,
        ),
        ClientFailure::CommandTimeout => (ErrorKind::Query, "Command timeout"@),
        ClientFailure::Query(m) => (ErrorKind::Query, m@),
        ClientFailure::Transaction(m) => (ErrorKind::Transaction, m@),
        ClientFailure::Server { number, class, message } => (
            ErrorKind::Query,
            server_error_text(number as int, class as int, message@),
        ),
        ClientFailure::Authentication(m) => (
            ErrorKind::Connection,
            "Authentication error: "@ + m@,
        ),
        ClientFailure::Cancelled => (ErrorKind::Cancelled, Seq::empty()),
        ClientFailure::Other(m) => (ErrorKind::Query, m@),
    }
}

/// The message that a pool failure maps to; the variant is always `Pool`.
pub open spec fn pool_failure_text(e: PoolFailure) -> Seq<char> {
    match e {
        PoolFailure::Timeout => "Connection timeout: pool exhausted"@,
        PoolFailure::AcquisitionTimeout { millis } => "Connection timeout after "@ + decimal(
            millis as nat,
        ) + "ms: pool exhausted"@,
        PoolFailure::PoolClosed => "Pool is closed"@,
        PoolFailure::MaxConnectionsReached { max } => "Pool exhausted: maximum connections ("@
            + decimal(max as nat) + ") reached"@,
        PoolFailure::ConnectionCreation(m) => "Could not establish connection: "@ + m@,
        PoolFailure::Connection(m) => "Connection error: "@ + m@,
        PoolFailure::UnhealthyConnection(m) => "Connection health check failed: "@ + m@,
        PoolFailure::ResetFailed(m) => "Connection reset failed: "@ + m@,
        PoolFailure::Configuration(m) => "Pool configuration error: "@ + m@,
        PoolFailure::ValidationFailed(m) => "Connection validation failed: "@ + m@,
    }
}

/// The six kinds of error, without their messages.
#[derive(Clone, Copy, Debug, PartialEq, Eq, Structural)]
pub enum ErrorKind {
    Config,
    Connection,
    Query,
    Transaction,
    Pool,
    Cancelled,
}

impl MssqlError {
    /// Which of the six kinds this error is.
    pub open spec fn spec_kind(&self) -> ErrorKind {
        match self {
            MssqlError::Config(_) => ErrorKind::Config,
            MssqlError::Connection(_) => ErrorKind::Connection,
            MssqlError::Query(_) => ErrorKind::Query,
            MssqlError::Transaction(_) => ErrorKind::Transaction,
            MssqlError::Pool(_) => ErrorKind::Pool,
            MssqlError::Cancelled => ErrorKind::Cancelled,
        }
    }

    /// The message carried by the error; empty for a cancellation.
    pub open spec fn detail(&self) -> Seq<char> {
        match self {
            MssqlError::Config(m) => m@,
            MssqlError::Connection(m) => m@,
            MssqlError::Query(m) => m@,
            MssqlError::Transaction(m) => m@,
            MssqlError::Pool(m) => m@,
            MssqlError::Cancelled => Seq::empty(),
        }
    }

    /// Whether this is the error of kind `kind` with message `text`.
    pub open spec fn is(&self, kind: ErrorKind, text: Seq<char>) -> bool {
        self.spec_kind() == kind && self.detail() == text
    }

    /// The text shown to a caller: the kind as a prefix, then the message.
    pub open spec fn spec_message(&self) -> Seq<char> {
        match self {
            MssqlError::Config(m) => "Config error: "@ + m@,
            MssqlError::Connection(m) => "Connection error: "@ + m@,
            MssqlError::Query(m) => "Query error: "@ + m@,
            MssqlError::Transaction(m) => "Transaction error: "@ + m@,
            MssqlError::Pool(m) => "Pool error: "@ + m@,
            MssqlError::Cancelled => "Operation cancelled"@,
        }
    }

    /// Which of the six kinds this error is.
    pub fn kind(&self) -> (k: ErrorKind)
        ensures
            k == self.spec_kind(),
    {
        match self {
            MssqlError::Config(_) => ErrorKind::Config,
            MssqlError::Connection(_) => ErrorKind::Connection,
            MssqlError::Query(_) => ErrorKind::Query,
            MssqlError::Transaction(_) => ErrorKind::Transaction,
            MssqlError::Pool(_) => ErrorKind::Pool,
            MssqlError::Cancelled => ErrorKind::Cancelled,
        }
    }

    /// The text shown to a caller.
    pub fn message(&self) -> (s: String)
        ensures
            s@ == self.spec_message(),
    {
        match self {
            MssqlError::Config(m) => prefixed("Config error: ", m.as_str()),
            MssqlError::Connection(m) => prefixed("Connection error: ", m.as_str()),
            MssqlError::Query(m) => prefixed("Query error: ", m.as_str()),
            MssqlError::Transaction(m) => prefixed("Transaction error: ", m.as_str()),
            MssqlError::Pool(m) => prefixed("Pool error: ", m.as_str()),
            MssqlError::Cancelled => String::from_str("Operation cancelled"),
        }
    }

    /// Folds a driver failure into the taxonomy. Timeouts while connecting become
    /// connection errors, a command timeout and anything unrecognised become
    /// query errors, and a server error keeps its number, severity and message.
    pub fn from_client_failure(e: ClientFailure) -> (r: MssqlError)
        ensures
            r.is(client_failure_kind(e).0, client_failure_kind(e).1),
    {
        match e {
            ClientFailure::Config(m) => MssqlError::Config(m),
            ClientFailure::Connection(m) => MssqlError::Connection(m),
            ClientFailure::ConnectionClosed => MssqlError::Connection(
                String::from_str("Connection closed"),
            ),
            ClientFailure::ConnectTimeout
            | ClientFailure::ConnectionTimeout
            | ClientFailure::TlsTimeout => MssqlError::Connection(
                String::from_str("Connection timeout"),
            ),
            ClientFailure::CommandTimeout => MssqlError::Query(String::from_str("Command timeout")),
            ClientFailure::Query(m) => MssqlError::Query(m),
            ClientFailure::Transaction(m) => MssqlError::Transaction(m),
            ClientFailure::Server { number, class, message } => {
                let mut s = String::from_str("SQL Server error ");
                push_signed_decimal(&mut s, number as i64);
                push_text(&mut s, " (severity ");
                push_decimal(&mut s, class as u128);
                push_text(&mut s, "): ");
                push_text(&mut s, message.as_str());
                MssqlError::Query(s)
            },
            ClientFailure::Authentication(m) => MssqlError::Connection(
                prefixed("Authentication error: ", m.as_str()),
            ),
            ClientFailure::Cancelled => MssqlError::Cancelled,
            ClientFailure::Other(m) => MssqlError::Query(m),
        }
    }

    /// Folds a pool failure into the taxonomy: always a pool error, with a message
    /// that says which limit was hit.
    pub fn from_pool_failure(e: PoolFailure) -> (r: MssqlError)
        ensures
            r.is(ErrorKind::Pool, pool_failure_text(e)),
    {
        match e {
            PoolFailure::Timeout => MssqlError::Pool(
                String::from_str("Connection timeout: pool exhausted"),
            ),
            PoolFailure::AcquisitionTimeout { millis } => {
                let mut s = String::from_str("Connection timeout after ");
                push_decimal(&mut s, millis);
                push_text(&mut s, "ms: pool exhausted");
                MssqlError::Pool(s)
            },
            PoolFailure::PoolClosed => MssqlError::Pool(String::from_str("Pool is closed")),
            PoolFailure::MaxConnectionsReached { max } => {
                let mut s = String::from_str("Pool exhausted: maximum connections (");
                push_decimal(&mut s, max as u128);
                push_text(&mut s, ") reached");
                MssqlError::Pool(s)
            },
            PoolFailure::ConnectionCreation(m) => MssqlError::Pool(
                prefixed("Could not establish connection: ", m.as_str()),
            ),
            PoolFailure::Connection(m) => MssqlError::Pool(
                prefixed("Connection error: ", m.as_str()),
            ),
            PoolFailure::UnhealthyConnection(m) => MssqlError::Pool(
                prefixed("Connection health check failed: ", m.as_str()),
            ),
            PoolFailure::ResetFailed(m) => MssqlError::Pool(
                prefixed("Connection reset failed: ", m.as_str()),
            ),
            PoolFailure::Configuration(m) => MssqlError::Pool(
                prefixed("Pool configuration error: ", m.as_str()),
            ),
            PoolFailure::ValidationFailed(m) => MssqlError::Pool(
                prefixed("Connection validation failed: ", m.as_str()),
            ),
        }
    }
}

/// `prefix` followed by `rest`, as a new string.
pub fn prefixed(prefix: &str, rest: &str) -> (s: String)
    ensures
        s@ == prefix@ + rest@,
{
    let mut s = String::from_str(prefix);
    push_text(&mut s, rest);
    s
}

} // verus!
