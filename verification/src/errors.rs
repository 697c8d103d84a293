//! The error kinds that a session or an analyzer can end with.

use vstd::prelude::*;

verus! {

/// What went wrong, at the level of the protocol.
#[derive(Copy, Clone, Debug, PartialEq, Eq, Structural)]
pub enum ErrorType {
    /// A protocol violation: bad version, unknown type, a body where none is allowed.
    InvalidRequest,
    /// No client message arrived within the liveness window.
    ClientTimeout,
    /// The camera producer has shut down.
    VideoSenderClosed,
}

/// An error of this library.
#[derive(Copy, Clone, Debug, PartialEq, Eq, Structural)]
pub struct Error {
    pub error_type: ErrorType,
}

/// The text by which an error kind is logged.
pub open spec fn error_label(t: ErrorType) -> Seq<char> {
    match t {
        ErrorType::InvalidRequest => "invalid_request"@,
        ErrorType::ClientTimeout => "client_timeout"@,
        ErrorType::VideoSenderClosed => "video_sender_closed"@,
    }
}

impl Error {
    /// The text by which this error is logged: the snake-case name of its kind.
    pub fn format(&self) -> (s: String)
        ensures
            s@ == error_label(self.error_type),
    {
        match self.error_type {
            ErrorType::InvalidRequest => "invalid_request".to_owned(),
            ErrorType::ClientTimeout => "client_timeout".to_owned(),
            ErrorType::VideoSenderClosed => "video_sender_closed".to_owned(),
        }
    }
}

} // verus!
