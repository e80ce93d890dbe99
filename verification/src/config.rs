//! Defaults of the client: connection address, connect timeout, and the
//! job parameters used by the `*_default` operations.

use vstd::prelude::*;

verus! {

pub const DEFAULT_PORT: u16 = 11300;

pub const DEFAULT_JOB_PRIORITY: u32 = 2147483648;

pub const DEFAULT_JOB_DELAY_SECS: u64 = 0;

pub const DEFAULT_JOB_TTR_SECS: u64 = 120;

pub const DEFAULT_CONNECTION_TIMEOUT_SECS: u64 = 120;

/// The default server host.
pub fn default_host() -> (h: &'static str)
    ensures
        h@ == "localhost"@,
{
    "localhost"
}

} // verus!
