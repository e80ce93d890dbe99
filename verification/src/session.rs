//! The session: connection configuration, the connected/closed state the
//! transport shell keeps in step, and the one send-then-receive cycle's
//! pure half — classifying a framed response against the command's declared
//! status sets.
//!
//! The actual socket lives outside the library; it marks the session
//! connected or closed and hands each response's raw bytes back in.

use vstd::prelude::*;
use vstd::string::StringExecFns;

use crate::command::Command;
use crate::config::{DEFAULT_CONNECTION_TIMEOUT_SECS, DEFAULT_PORT};
use crate::error::BeanstalkcError;
use crate::frame::{decode_frame, decode_ok, decode_status, is_decoded_frame};
use crate::response::Response;
use crate::status::Status;

verus! {

/// Does the status set hold this status?
pub fn status_set_contains(v: &Vec<Status>, s: Status) -> (r: bool)
    ensures
        r == v@.contains(s),
{
    let mut i: usize = 0;
    while i < v.len()
        invariant
            0 <= i <= v@.len(),
            forall|k: int| 0 <= k < i ==> v@[k] != s,
        decreases v@.len() - i,
    {
        if v[i] == s {
            return true;
        }
        i += 1;
    }
    proof {
        assert(!v@.contains(s));
    }
    false
}

impl Command {
    /// Classify a framed response against this command's status sets: a
    /// declared success passes the response through whole, a declared
    /// domain failure becomes `CommandFailed` with that status, and any
    /// other status becomes `UnexpectedResponse` — never swallowed, since
    /// an undeclared status signals a desync or version skew.
    pub fn dispatch(&self, resp: Response) -> (r: Result<Response, BeanstalkcError>)
        ensures
            self@.expected_ok.contains(resp.status) ==> r == Ok::<Response, BeanstalkcError>(
                resp,
            ),
            !self@.expected_ok.contains(resp.status) && self@.expected_error.contains(resp.status)
                ==> r == Err::<Response, BeanstalkcError>(
                BeanstalkcError::CommandFailed(resp.status),
            ),
            !self@.expected_ok.contains(resp.status) && !self@.expected_error.contains(
                resp.status,
            ) ==> r == Err::<Response, BeanstalkcError>(
                BeanstalkcError::UnexpectedResponse(resp.status),
            ),
    {
        if status_set_contains(&self.expected_ok, resp.status) {
            Ok(resp)
        } else if status_set_contains(&self.expected_error, resp.status) {
            Err(BeanstalkcError::CommandFailed(resp.status))
        } else {
            Err(BeanstalkcError::UnexpectedResponse(resp.status))
        }
    }
}

/// The client session: where to connect, the optional connect timeout, and
/// whether a stream is currently open. The transport shell owns the socket
/// itself and keeps `connected` truthful through `mark_connected` and
/// `mark_closed`.
pub struct Beanstalkc {
    pub host: String,
    pub port: u16,
    pub connection_timeout_secs: Option<u64>,
    pub connected: bool,
}

impl Beanstalkc {
    /// A fresh session aimed at the default address, not yet connected.
    pub fn new() -> (c: Beanstalkc)
        ensures
            c.host@ == "localhost"@,
            c.port == DEFAULT_PORT,
            c.connection_timeout_secs == Some(DEFAULT_CONNECTION_TIMEOUT_SECS),
            !c.connected,
    {
        Beanstalkc {
            host: String::from_str(crate::config::default_host()),
            port: DEFAULT_PORT,
            connection_timeout_secs: Some(DEFAULT_CONNECTION_TIMEOUT_SECS),
            connected: false,
        }
    }

    /// The same session aimed at another host.
    pub fn host(self, host: &str) -> (c: Beanstalkc)
        ensures
            c.host@ == host@,
            c.port == self.port,
            c.connection_timeout_secs == self.connection_timeout_secs,
            c.connected == self.connected,
    {
        Beanstalkc {
            host: String::from_str(host),
            port: self.port,
            connection_timeout_secs: self.connection_timeout_secs,
            connected: self.connected,
        }
    }

    /// The same session aimed at another port.
    pub fn port(self, port: u16) -> (c: Beanstalkc)
        ensures
            c.host@ == self.host@,
            c.port == port,
            c.connection_timeout_secs == self.connection_timeout_secs,
            c.connected == self.connected,
    {
        Beanstalkc {
            host: self.host,
            port,
            connection_timeout_secs: self.connection_timeout_secs,
            connected: self.connected,
        }
    }

    /// The same session with another connect timeout, in whole seconds.
    pub fn connection_timeout(self, timeout_secs: Option<u64>) -> (c: Beanstalkc)
        ensures
            c.host@ == self.host@,
            c.port == self.port,
            c.connection_timeout_secs == timeout_secs,
            c.connected == self.connected,
    {
        Beanstalkc {
            host: self.host,
            port: self.port,
            connection_timeout_secs: timeout_secs,
            connected: self.connected,
        }
    }

    /// Record that the transport shell opened a stream.
    pub fn mark_connected(&mut self)
        ensures
            final(self).host@ == old(self).host@,
            final(self).port == old(self).port,
            final(self).connection_timeout_secs == old(self).connection_timeout_secs,
            final(self).connected,
    {
        self.connected = true;
    }

    /// Record that the transport shell closed or lost the stream.
    pub fn mark_closed(&mut self)
        ensures
            final(self).host@ == old(self).host@,
            final(self).port == old(self).port,
            final(self).connection_timeout_secs == old(self).connection_timeout_secs,
            !final(self).connected,
    {
        self.connected = false;
    }

    /// A command may only be sent over an open stream: the connection
    /// error every operation returns when none is open.
    pub fn require_stream(&self) -> (r: Result<(), BeanstalkcError>)
        ensures
            r is Ok <==> self.connected,
            r matches Err(e) ==> e matches BeanstalkcError::ConnectionError(_),
    {
        if self.connected {
            Ok(())
        } else {
            Err(BeanstalkcError::ConnectionError(String::from_str("invalid connection")))
        }
    }

    /// One whole send-then-receive cycle on already-exchanged bytes: check
    /// the stream, frame the response bytes, and classify the status
    /// against the command's declared sets.
    pub fn exchange(&self, cmd: &Command, wire: &[u8]) -> (r: Result<Response, BeanstalkcError>)
        ensures
            !self.connected ==> (r matches Err(e) && e matches BeanstalkcError::ConnectionError(
                _,
            )),
            self.connected ==> {
                &&& r is Ok <==> (decode_ok(wire@) && cmd@.expected_ok.contains(
                    decode_status(wire@),
                ))
                &&& r matches Ok(resp) ==> is_decoded_frame(wire@, resp)
                &&& r matches Err(e) ==> match e {
                    BeanstalkcError::CommandFailed(st) => decode_ok(wire@) && st == decode_status(
                        wire@,
                    ) && !cmd@.expected_ok.contains(st) && cmd@.expected_error.contains(st),
                    BeanstalkcError::UnexpectedResponse(st) => decode_ok(wire@) && st
                        == decode_status(wire@) && !cmd@.expected_ok.contains(st)
                        && !cmd@.expected_error.contains(st),
                    BeanstalkcError::ProtocolError(_) => crate::frame::decode_malformed(wire@),
                    BeanstalkcError::IoError(_) => crate::frame::decode_short(wire@),
                    BeanstalkcError::ConnectionError(_) => false,
                }
            },
    {
        match self.require_stream() {
            Err(e) => Err(e),
            Ok(()) => {
                match decode_frame(wire) {
                    Err(e) => Err(e),
                    Ok(resp) => cmd.dispatch(resp),
                }
            },
        }
    }
}

impl Default for Beanstalkc {
    /// The same fresh session `new` builds.
    fn default() -> (c: Self)
        ensures
            c.host@ == "localhost"@,
            c.port == DEFAULT_PORT,
            c.connection_timeout_secs == Some(DEFAULT_CONNECTION_TIMEOUT_SECS),
            !c.connected,
    {
        Beanstalkc::new()
    }
}

} // verus!
