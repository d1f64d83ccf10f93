//! The error type shared by every service.

use vstd::prelude::*;
use vstd::string::*;

verus! {

/// Shared application error type used by all services.
#[derive(Debug)]
pub enum AppError {
    Io(std::io::Error),
    Toml(toml::de::Error),
    Json(serde_json::Error),
    Db(sqlx::Error),
    Protocol(String),
}

/// The text of the protocol error that reports a peer closing its connection.
pub open spec fn spec_connection_closed() -> Seq<char> {
    "connection closed"@
}

/// Whether `e` is the protocol error `message`.
pub open spec fn is_protocol_error(e: AppError, message: Seq<char>) -> bool {
    e matches AppError::Protocol(m) && m@ == message
}

impl AppError {
    /// The protocol error that reports that the peer closed its connection.
    pub fn connection_closed() -> (e: AppError)
        ensures
            is_protocol_error(e, spec_connection_closed()),
    {
        AppError::Protocol(String::from_str("connection closed"))
    }

    /// Whether this error reports that the peer closed its connection.
    pub fn is_connection_closed(&self) -> (b: bool)
        ensures
            b == is_protocol_error(*self, spec_connection_closed()),
    {
        match self {
            AppError::Protocol(msg) => {
                let closed = String::from_str("connection closed");
                *msg == closed
            },
            _ => false,
        }
    }
}

} // verus!
