//! Errors that end the handling of one connection.
use vstd::prelude::*;

verus! {

/// Why reading the request from the connection failed.
#[derive(Clone, Copy, Debug, PartialEq, Eq, Structural)]
pub enum ReadFault {
    /// No byte came within the read timeout.
    TimedOut,
    /// The stream ended before the bytes that were asked for.
    EndOfStream,
    /// Any other transport failure.
    Other,
}

/// A failure that closes a connection without a response.
#[derive(Clone, Copy, Debug, PartialEq, Eq, Structural)]
pub enum Error {
    /// The connection could not be read.
    RequestReadError(ReadFault),
    /// The bytes read are not a request this server serves.
    WrongRequest,
    /// The request-target is not valid percent-encoded UTF-8.
    WrongUri,
    /// The response could not be written.
    AnswerWriteError,
    /// The connection could not be shut down after the response.
    ShutdownFailed,
}

impl Error {
    /// A read that timed out is the expected end of an idle connection,
    /// not a failure worth reporting.
    pub fn is_timeout(&self) -> (r: bool)
        ensures
            r == (*self == Error::RequestReadError(ReadFault::TimedOut)),
    {
        match self {
            Error::RequestReadError(ReadFault::TimedOut) => true,
            _ => false,
        }
    }
}

} // verus!
