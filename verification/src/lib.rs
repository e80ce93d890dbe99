//! Protocol engine for a beanstalkd-style work queue client.
//!
//! The library covers everything about the protocol that can be stated and
//! checked without a socket: rendering command lines and payload frames as
//! wire bytes, framing and decoding server responses, classifying a response
//! status against the status sets each command declares, parsing the textual
//! bodies of listing and statistics responses, and the lifecycle state
//! machine of a reserved job. A thin asynchronous shell elsewhere owns the
//! TCP stream and feeds raw bytes in and out of these functions.

pub mod command;
pub mod config;
pub mod error;
pub mod frame;
pub mod job;
pub mod laws;
pub mod number;
pub mod response;
pub mod scan;
pub mod session;
pub mod status;
pub mod text;

pub use crate::error::{BeanstalkcError, BeanstalkcResult};
pub use crate::job::Job;
pub use crate::response::Response;
pub use crate::session::Beanstalkc;
pub use crate::status::Status;

