//! The error taxonomy of the client.
//!
//! `ConnectionError` stands for a missing or failed transport; `IoError` for
//! a read, write or flush failure, including a short body read; and
//! `ProtocolError` for a malformed status line, an unrecognized status
//! token, or a missing or non-numeric argument slot. `CommandFailed` carries
//! a status the command declared as a recognized domain failure, which
//! callers branch on; `UnexpectedResponse` carries a status the command
//! declared neither as success nor as failure, which signals a
//! protocol-level anomaly.

use vstd::prelude::*;

use crate::status::Status;

verus! {

/// Everything a client operation can fail with.
#[derive(Debug, Clone, PartialEq, Eq)]
pub enum BeanstalkcError {
    ConnectionError(String),
    IoError(String),
    ProtocolError(String),
    CommandFailed(Status),
    UnexpectedResponse(Status),
}

/// The usual result type of the client.
pub type BeanstalkcResult<T> = Result<T, BeanstalkcError>;

} // verus!
