use vstd::prelude::*;

verus! {

/// The errors that the client reports.
#[derive(Debug)]
pub enum Error {
    /// The transport failed.
    Io(String),
    /// The server sent a malformed message, or reported an error for a request.
    Protocol(String),
    /// Authentication could not be completed.
    Authentication(String),
    /// A value could not be decoded.
    Parse(String),
    /// The server closed the stream before an expected message.
    Closed,
    /// Any other failure.
    Other(String),
}

pub type Result<T> = core::result::Result<T, Error>;

/// A protocol error carrying the given text.
pub fn protocol_error(text: &str) -> (e: Error)
    ensures
        e matches Error::Protocol(s) && s@ == text@,
{
    Error::Protocol(text.to_owned())
}

/// An authentication error carrying the given text.
pub fn auth_error(text: &str) -> (e: Error)
    ensures
        e matches Error::Authentication(s) && s@ == text@,
{
    Error::Authentication(text.to_owned())
}

} // verus!
