//! The job handle and its lifecycle state machine.
//!
//! A job is one reserved-or-peeked unit of work: its server-assigned id,
//! its opaque body bytes, and a reserved flag that starts true only for
//! reserved jobs. The lifecycle methods plan the command the transport
//! shell must send — or plan nothing, since `delete`, `release`, `bury` and
//! `touch` on a job that is not reserved are silent no-op successes that
//! issue no wire traffic. Once a delete, a successful release or a
//! successful bury completes, `mark_unreserved` flips the flag permanently.

use vstd::prelude::*;
use vstd::string::StringExecFns;

use crate::command::{
    opt_view, spec_bury, spec_delete, spec_kick_job, spec_release, spec_stats_job, spec_touch,
    Command, CommandView,
};
use crate::config::DEFAULT_JOB_PRIORITY;
use crate::number::{dec_val_chars, digits_chars, parse_u32_str};

verus! {

/// One unit of work held by the caller.
pub struct Job {
    pub id: u64,
    pub body: Vec<u8>,
    pub reserved: bool,
}

/// What `delete` plans: the delete command while the job is reserved,
/// nothing afterwards.
pub open spec fn delete_action(j: Job) -> Option<CommandView> {
    if j.reserved {
        Some(spec_delete(j.id))
    } else {
        None
    }
}

/// What `release` plans.
pub open spec fn release_action(j: Job, priority: u32, delay_secs: u64) -> Option<CommandView> {
    if j.reserved {
        Some(spec_release(j.id, priority, delay_secs))
    } else {
        None
    }
}

/// What `bury` plans.
pub open spec fn bury_action(j: Job, priority: u32) -> Option<CommandView> {
    if j.reserved {
        Some(spec_bury(j.id, priority))
    } else {
        None
    }
}

/// What `touch` plans.
pub open spec fn touch_action(j: Job) -> Option<CommandView> {
    if j.reserved {
        Some(spec_touch(j.id))
    } else {
        None
    }
}

/// The job after a completed delete, release or bury: same id and body, no
/// longer reserved.
pub open spec fn settled(j: Job) -> Job {
    Job { id: j.id, body: j.body, reserved: false }
}

impl Job {
    /// Wrap a server-returned job.
    pub fn new(id: u64, body: Vec<u8>, reserved: bool) -> (j: Job)
        ensures
            j.id == id,
            j.body == body,
            j.reserved == reserved,
    {
        Job { id, body, reserved }
    }

    /// The job's id.
    pub fn id(&self) -> (r: u64)
        ensures
            r == self.id,
    {
        self.id
    }

    /// The job's body bytes, never interpreted by the client.
    pub fn body(&self) -> (b: &[u8])
        ensures
            b@ == self.body@,
    {
        self.body.as_slice()
    }

    /// Is the job still reserved?
    pub fn reserved(&self) -> (r: bool)
        ensures
            r == self.reserved,
    {
        self.reserved
    }

    /// Plan the delete of this job: the command to send while reserved, a
    /// silent no-op success afterwards.
    pub fn delete(&self) -> (c: Option<Command>)
        ensures
            opt_view(c) == delete_action(*self),
    {
        if self.reserved {
            Some(crate::command::delete(self.id))
        } else {
            None
        }
    }

    /// Plan the release of this job back to the ready queue.
    pub fn release(&self, priority: u32, delay_secs: u64) -> (c: Option<Command>)
        ensures
            opt_view(c) == release_action(*self, priority, delay_secs),
    {
        if self.reserved {
            Some(crate::command::release(self.id, priority, delay_secs))
        } else {
            None
        }
    }

    /// Plan burying this job.
    pub fn bury(&self, priority: u32) -> (c: Option<Command>)
        ensures
            opt_view(c) == bury_action(*self, priority),
    {
        if self.reserved {
            Some(crate::command::bury(self.id, priority))
        } else {
            None
        }
    }

    /// Plan touching this job for more time; a no-op success when it is
    /// not reserved.
    pub fn touch(&self) -> (c: Option<Command>)
        ensures
            opt_view(c) == touch_action(*self),
    {
        if self.reserved {
            Some(crate::command::touch(self.id))
        } else {
            None
        }
    }

    /// The kick command for this job: kicking goes by id alone, whatever
    /// the reserved flag says.
    pub fn kick(&self) -> (c: Command)
        ensures
            c@ == spec_kick_job(self.id),
    {
        crate::command::kick_job(self.id)
    }

    /// The per-job statistics query for this job.
    pub fn stats(&self) -> (c: Command)
        ensures
            c@ == spec_stats_job(self.id),
    {
        crate::command::stats_job(self.id)
    }

    /// Record that a delete, release or bury completed on the server: the
    /// flag flips to not-reserved, permanently; id and body stay.
    pub fn mark_unreserved(&mut self)
        ensures
            *final(self) == settled(*old(self)),
    {
        self.reserved = false;
    }
}

/// Build the job a `RESERVED` or `FOUND` response hands back: its id from
/// slot 0, its body from the frame, and the reserved flag as the operation
/// dictates — true for a reserve, false for a peek. A missing or
/// non-numeric id slot is a protocol error.
pub fn job_from_response(resp: &crate::response::Response, reserved: bool) -> (r: Result<
    Job,
    crate::error::BeanstalkcError,
>)
    ensures
        r is Ok <==> (0 < resp.params@.len() && digits_chars(resp.params@[0]@) && dec_val_chars(
            resp.params@[0]@,
        ) <= u64::MAX),
        r matches Ok(j) ==> j.id == dec_val_chars(resp.params@[0]@) && j.body@
            == resp.body_bytes() && j.reserved == reserved,
        r matches Err(e) ==> e matches crate::error::BeanstalkcError::ProtocolError(_),
{
    match resp.job_id() {
        Ok(id) => {
            let body: Vec<u8> = match &resp.body {
                Some(b) => crate::text::bytes_subrange(b.as_slice(), 0, b.len()),
                None => Vec::new(),
            };
            proof {
                assert(body@ =~= resp.body_bytes());
            }
            Ok(Job::new(id, body, reserved))
        },
        Err(e) => Err(e),
    }
}

/// Once a job has settled — a delete, successful release or successful
/// bury has completed and flipped its reserved flag — a second delete,
/// release or bury plans no command at all: it issues no wire traffic and
/// is a no-op success, and settling again changes nothing.
pub proof fn lemma_lifecycle_idempotent(j: Job, priority: u32, delay_secs: u64)
    ensures
        !settled(j).reserved,
        delete_action(settled(j)) is None,
        release_action(settled(j), priority, delay_secs) is None,
        bury_action(settled(j), priority) is None,
        touch_action(settled(j)) is None,
        settled(settled(j)) == settled(j),
{
}

/// The first `pri` entry of a job's statistics, read as a priority; the
/// default priority when the entry is absent or not a number that fits.
pub open spec fn spec_priority_from_stats(ps: Seq<(String, String)>) -> u32 {
    match stat_lookup(ps, "pri"@) {
        Some(v) => if digits_chars(v) && dec_val_chars(v) <= u32::MAX {
            dec_val_chars(v) as u32
        } else {
            DEFAULT_JOB_PRIORITY
        },
        None => DEFAULT_JOB_PRIORITY,
    }
}

/// The first value stored under `key`, scanning the pairs in order.
pub open spec fn stat_lookup(ps: Seq<(String, String)>, key: Seq<char>) -> Option<Seq<char>>
    decreases ps.len(),
{
    if ps.len() == 0 {
        None
    } else if ps[0].0@ == key {
        Some(ps[0].1@)
    } else {
        stat_lookup(ps.drop_first(), key)
    }
}

/// The priority to reuse when releasing or burying with defaults: the
/// job's current priority out of its statistics, or the default priority
/// when the field is absent or unreadable.
pub fn priority_from_stats(stats: &Vec<(String, String)>) -> (r: u32)
    ensures
        r == spec_priority_from_stats(stats@),
{
    proof {
        reveal_strlit("pri");
    }
    let key = String::from_str("pri");
    let mut i: usize = 0;
    proof {
        assert(stats@.skip(0) =~= stats@);
    }
    while i < stats.len()
        invariant
            key@ == "pri"@,
            0 <= i <= stats@.len(),
            stat_lookup(stats@, "pri"@) == stat_lookup(stats@.skip(i as int), "pri"@),
        decreases stats@.len() - i,
    {
        proof {
            assert(stats@.skip(i as int)[0] == stats@[i as int]);
            assert(stats@.skip(i as int).drop_first() =~= stats@.skip(i + 1));
        }
        if stats[i].0 == key {
            match parse_u32_str(stats[i].1.as_str()) {
                Some(v) => {
                    return v;
                },
                None => {
                    return DEFAULT_JOB_PRIORITY;
                },
            }
        }
        i += 1;
    }
    proof {
        assert(stats@.skip(stats@.len() as int).len() == 0);
    }
    DEFAULT_JOB_PRIORITY
}

} // verus!
