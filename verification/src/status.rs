//! The status taxonomy: every status token a server may put at the front of
//! a response line, and the per-status rule that says whether a body follows
//! the line and which argument slot carries its byte length.

use vstd::prelude::*;

use crate::text::{ascii_bytes, ascii_str_to_bytes, bytes_eq};

verus! {

/// One wire status token, as a closed enumeration.
#[derive(Clone, Copy, Debug, PartialEq, Eq, Structural)]
pub enum Status {
    OutOfMemory,
    InternalError,
    BadFormat,
    UnknownCommand,
    ExpectedCrlf,
    JobTooBig,
    Draining,
    Inserted,
    Buried,
    Using,
    DeadlineSoon,
    TimedOut,
    Reserved,
    Deleted,
    Released,
    Touched,
    Found,
    NotFound,
    Kicked,
    Watching,
    NotIgnored,
    Okay,
    Paused,
    NameTooLong,
}

/// The characters of the wire token that names each status.
pub open spec fn token_chars(s: Status) -> Seq<char> {
    match s {
        Status::OutOfMemory => "OUT_OF_MEMORY"@,
        Status::InternalError => "INTERNAL_ERROR"@,
        Status::BadFormat => "BAD_FORMAT"@,
        Status::UnknownCommand => "UNKNOWN_COMMAND"@,
        Status::ExpectedCrlf => "EXPECTED_CRLF"@,
        Status::JobTooBig => "JOB_TOO_BIG"@,
        Status::Draining => "DRAINING"@,
        Status::Inserted => "INSERTED"@,
        Status::Buried => "BURIED"@,
        Status::Using => "USING"@,
        Status::DeadlineSoon => "DEADLINE_SOON"@,
        Status::TimedOut => "TIMED_OUT"@,
        Status::Reserved => "RESERVED"@,
        Status::Deleted => "DELETED"@,
        Status::Released => "RELEASED"@,
        Status::Touched => "TOUCHED"@,
        Status::Found => "FOUND"@,
        Status::NotFound => "NOT_FOUND"@,
        Status::Kicked => "KICKED"@,
        Status::Watching => "WATCHING"@,
        Status::NotIgnored => "NOT_IGNORED"@,
        Status::Okay => "OK"@,
        Status::Paused => "PAUSED"@,
        Status::NameTooLong => "NAME_TOO_LONG"@,
    }
}

/// The bytes of the wire token that names each status.
pub open spec fn token_bytes(s: Status) -> Seq<u8> {
    ascii_bytes(token_chars(s))
}

/// Resolve the first token of a response line to a status. `None` stands for
/// a token outside the closed set, which callers must surface as a protocol
/// error rather than swallow.
pub open spec fn status_of(t: Seq<u8>) -> Option<Status> {
    if t == token_bytes(Status::OutOfMemory) {
        Some(Status::OutOfMemory)
    } else if t == token_bytes(Status::InternalError) {
        Some(Status::InternalError)
    } else if t == token_bytes(Status::BadFormat) {
        Some(Status::BadFormat)
    } else if t == token_bytes(Status::UnknownCommand) {
        Some(Status::UnknownCommand)
    } else if t == token_bytes(Status::ExpectedCrlf) {
        Some(Status::ExpectedCrlf)
    } else if t == token_bytes(Status::JobTooBig) {
        Some(Status::JobTooBig)
    } else if t == token_bytes(Status::Draining) {
        Some(Status::Draining)
    } else if t == token_bytes(Status::Inserted) {
        Some(Status::Inserted)
    } else if t == token_bytes(Status::Buried) {
        Some(Status::Buried)
    } else if t == token_bytes(Status::Using) {
        Some(Status::Using)
    } else if t == token_bytes(Status::DeadlineSoon) {
        Some(Status::DeadlineSoon)
    } else if t == token_bytes(Status::TimedOut) {
        Some(Status::TimedOut)
    } else if t == token_bytes(Status::Reserved) {
        Some(Status::Reserved)
    } else if t == token_bytes(Status::Deleted) {
        Some(Status::Deleted)
    } else if t == token_bytes(Status::Released) {
        Some(Status::Released)
    } else if t == token_bytes(Status::Touched) {
        Some(Status::Touched)
    } else if t == token_bytes(Status::Found) {
        Some(Status::Found)
    } else if t == token_bytes(Status::NotFound) {
        Some(Status::NotFound)
    } else if t == token_bytes(Status::Kicked) {
        Some(Status::Kicked)
    } else if t == token_bytes(Status::Watching) {
        Some(Status::Watching)
    } else if t == token_bytes(Status::NotIgnored) {
        Some(Status::NotIgnored)
    } else if t == token_bytes(Status::Okay) {
        Some(Status::Okay)
    } else if t == token_bytes(Status::Paused) {
        Some(Status::Paused)
    } else if t == token_bytes(Status::NameTooLong) {
        Some(Status::NameTooLong)
    } else {
        None
    }
}

/// Does a token match a known status token? The literal is checked against
/// the token bytes character by character.
fn token_is(tok: &[u8], lit: &str) -> (r: bool)
    requires
        lit.is_ascii(),
    ensures
        r <==> tok@ == ascii_bytes(lit@),
{
    let lb = ascii_str_to_bytes(lit);
    bytes_eq(tok, lb.as_slice())
}

/// Resolve a response line's first token to its status, or `None` when the
/// token matches no known status.
pub fn status_from_token(tok: &[u8]) -> (r: Option<Status>)
    ensures
        r == status_of(tok@),
{
    proof {
        reveal_strlit("OUT_OF_MEMORY");
        reveal_strlit("INTERNAL_ERROR");
        reveal_strlit("BAD_FORMAT");
        reveal_strlit("UNKNOWN_COMMAND");
        reveal_strlit("EXPECTED_CRLF");
        reveal_strlit("JOB_TOO_BIG");
        reveal_strlit("DRAINING");
        reveal_strlit("INSERTED");
        reveal_strlit("BURIED");
        reveal_strlit("USING");
        reveal_strlit("DEADLINE_SOON");
        reveal_strlit("TIMED_OUT");
        reveal_strlit("RESERVED");
        reveal_strlit("DELETED");
        reveal_strlit("RELEASED");
        reveal_strlit("TOUCHED");
        reveal_strlit("FOUND");
        reveal_strlit("NOT_FOUND");
        reveal_strlit("KICKED");
        reveal_strlit("WATCHING");
        reveal_strlit("NOT_IGNORED");
        reveal_strlit("OK");
        reveal_strlit("PAUSED");
        reveal_strlit("NAME_TOO_LONG");
    }
    if token_is(tok, "OUT_OF_MEMORY") {
        Some(Status::OutOfMemory)
    } else if token_is(tok, "INTERNAL_ERROR") {
        Some(Status::InternalError)
    } else if token_is(tok, "BAD_FORMAT") {
        Some(Status::BadFormat)
    } else if token_is(tok, "UNKNOWN_COMMAND") {
        Some(Status::UnknownCommand)
    } else if token_is(tok, "EXPECTED_CRLF") {
        Some(Status::ExpectedCrlf)
    } else if token_is(tok, "JOB_TOO_BIG") {
        Some(Status::JobTooBig)
    } else if token_is(tok, "DRAINING") {
        Some(Status::Draining)
    } else if token_is(tok, "INSERTED") {
        Some(Status::Inserted)
    } else if token_is(tok, "BURIED") {
        Some(Status::Buried)
    } else if token_is(tok, "USING") {
        Some(Status::Using)
    } else if token_is(tok, "DEADLINE_SOON") {
        Some(Status::DeadlineSoon)
    } else if token_is(tok, "TIMED_OUT") {
        Some(Status::TimedOut)
    } else if token_is(tok, "RESERVED") {
        Some(Status::Reserved)
    } else if token_is(tok, "DELETED") {
        Some(Status::Deleted)
    } else if token_is(tok, "RELEASED") {
        Some(Status::Released)
    } else if token_is(tok, "TOUCHED") {
        Some(Status::Touched)
    } else if token_is(tok, "FOUND") {
        Some(Status::Found)
    } else if token_is(tok, "NOT_FOUND") {
        Some(Status::NotFound)
    } else if token_is(tok, "KICKED") {
        Some(Status::Kicked)
    } else if token_is(tok, "WATCHING") {
        Some(Status::Watching)
    } else if token_is(tok, "NOT_IGNORED") {
        Some(Status::NotIgnored)
    } else if token_is(tok, "OK") {
        Some(Status::Okay)
    } else if token_is(tok, "PAUSED") {
        Some(Status::Paused)
    } else if token_is(tok, "NAME_TOO_LONG") {
        Some(Status::NameTooLong)
    } else {
        None
    }
}

/// Which argument slot of the status line carries the byte length of a body,
/// or `None` for the statuses that carry no body. A bare success with a body
/// (`OK`) declares the length in slot 0; the two statuses that return a job
/// (`RESERVED`, `FOUND`) put the job id in slot 0 and the length in slot 1.
pub open spec fn spec_body_slot(s: Status) -> Option<usize> {
    match s {
        Status::Okay => Some(0usize),
        Status::Reserved => Some(1usize),
        Status::Found => Some(1usize),
        _ => None,
    }
}

/// The argument slot holding the body length for this status, if any.
pub fn body_slot(s: Status) -> (r: Option<usize>)
    ensures
        r == spec_body_slot(s),
{
    match s {
        Status::Okay => Some(0usize),
        Status::Reserved => Some(1usize),
        Status::Found => Some(1usize),
        _ => None,
    }
}

} // verus!
