//! The command builder.
//!
//! Each operation becomes a [`Command`]: the request line's keyword and its
//! rendered textual arguments, the raw payload for the one operation that
//! carries one, and the two status sets — the statuses that count as
//! success for this operation and those that count as a recognized domain
//! failure. `build` joins keyword and arguments with single spaces,
//! terminates the line with the delimiter, and appends the
//! delimiter-terminated payload when there is one.

use vstd::prelude::*;

use crate::config::{DEFAULT_JOB_DELAY_SECS, DEFAULT_JOB_PRIORITY, DEFAULT_JOB_TTR_SECS};
use crate::number::{dec_rep, render_u64};
use crate::status::Status;
use crate::text::{ascii_bytes, ascii_str_to_bytes, lemma_vecvec_deep_view, push_bytes};

verus! {

/// One request, ready to be sent: its wire pieces and its declared status
/// sets.
pub struct Command {
    pub name: Vec<u8>,
    pub args: Vec<Vec<u8>>,
    pub body: Option<Vec<u8>>,
    pub expected_ok: Vec<Status>,
    pub expected_error: Vec<Status>,
}

/// The mathematical shape of a command.
#[verifier::ext_equal]
pub struct CommandView {
    pub name: Seq<u8>,
    pub args: Seq<Seq<u8>>,
    pub body: Option<Seq<u8>>,
    pub expected_ok: Seq<Status>,
    pub expected_error: Seq<Status>,
}

impl View for Command {
    type V = CommandView;

    open spec fn view(&self) -> CommandView {
        CommandView {
            name: self.name@,
            args: self.args.deep_view(),
            body: match self.body {
                Some(b) => Some(b@),
                None => None,
            },
            expected_ok: self.expected_ok@,
            expected_error: self.expected_error@,
        }
    }
}

/// A tube name that can stand as one token of a request line: non-empty
/// ASCII text without the whitespace bytes that would break the line's
/// framing.
pub open spec fn tube_name_wf(s: Seq<char>) -> bool {
    &&& vstd::utf8::is_ascii_chars(s)
    &&& s.len() > 0
    &&& forall|i: int|
        0 <= i < s.len() ==> #[trigger] s[i] != ' ' && s[i] != '\t' && s[i] != '\r' && s[i] != '\n'
}

/// The view of a planned command, `None` staying `None`.
pub open spec fn opt_view(c: Option<Command>) -> Option<CommandView> {
    match c {
        Some(cmd) => Some(cmd@),
        None => None,
    }
}

/// The space-prefixed concatenation of the rendered arguments.
pub open spec fn args_wire(args: Seq<Seq<u8>>) -> Seq<u8>
    decreases args.len(),
{
    if args.len() == 0 {
        Seq::empty()
    } else {
        args_wire(args.drop_last()) + seq![32u8] + args.last()
    }
}

/// The exact wire bytes of a command: the keyword and its arguments joined
/// by single spaces and closed by the line delimiter, then, when a payload
/// is present, the payload closed by the same delimiter. The payload's
/// length is one of the arguments, so it is never delimiter-scanned.
pub open spec fn wire_of(c: CommandView) -> Seq<u8> {
    let line = c.name + args_wire(c.args) + seq![13u8, 10u8];
    match c.body {
        None => line,
        Some(b) => line + b + seq![13u8, 10u8],
    }
}

impl Command {
    /// Render the command as the bytes that go on the wire.
    pub fn build(&self) -> (w: Vec<u8>)
        ensures
            w@ == wire_of(self@),
    {
        let mut w: Vec<u8> = Vec::new();
        push_bytes(&mut w, self.name.as_slice());
        let ghost argsv = self@.args;
        let mut i: usize = 0;
        proof {
            assert(argsv.take(0) =~~= Seq::<Seq<u8>>::empty());
            assert(w@ =~= self@.name + args_wire(argsv.take(0)));
        }
        while i < self.args.len()
            invariant
                argsv == self@.args,
                self.args@.len() == argsv.len(),
                self.args.deep_view() == argsv,
                0 <= i <= argsv.len(),
                w@ == self@.name + args_wire(argsv.take(i as int)),
            decreases argsv.len() - i,
        {
            w.push(32u8);
            push_bytes(&mut w, self.args[i].as_slice());
            proof {
                assert(self.args@[i as int].deep_view() == argsv[i as int]);
                assert(self.args@[i as int]@ =~= argsv[i as int]);
                let t = argsv.take(i + 1);
                assert(t.drop_last() =~= argsv.take(i as int));
                assert(t.last() == argsv[i as int]);
                assert(w@ =~= self@.name + args_wire(argsv.take(i + 1)));
            }
            i += 1;
        }
        proof {
            assert(argsv.take(argsv.len() as int) =~= argsv);
        }
        w.push(13u8);
        w.push(10u8);
        match &self.body {
            None => {
                proof {
                    assert(w@ =~= wire_of(self@));
                }
                w
            },
            Some(b) => {
                let mut w = w;
                push_bytes(&mut w, b.as_slice());
                w.push(13u8);
                w.push(10u8);
                proof {
                    assert(w@ =~= wire_of(self@));
                }
                w
            },
        }
    }
}

/// A keyword or name as wire bytes.
fn lit_bytes(lit: &str) -> (r: Vec<u8>)
    requires
        lit.is_ascii(),
    ensures
        r@ == ascii_bytes(lit@),
{
    ascii_str_to_bytes(lit)
}

/// A status set of one.
fn statuses1(a: Status) -> (v: Vec<Status>)
    ensures
        v@ == seq![a],
{
    let mut v: Vec<Status> = Vec::new();
    v.push(a);
    proof {
        assert(v@ =~= seq![a]);
    }
    v
}

/// A status set of two.
fn statuses2(a: Status, b: Status) -> (v: Vec<Status>)
    ensures
        v@ == seq![a, b],
{
    let mut v = statuses1(a);
    v.push(b);
    proof {
        assert(v@ =~= seq![a, b]);
    }
    v
}

/// The empty status set.
fn statuses0() -> (v: Vec<Status>)
    ensures
        v@ == Seq::<Status>::empty(),
{
    let v: Vec<Status> = Vec::new();
    proof {
        assert(v@ =~= Seq::<Status>::empty());
    }
    v
}

/// One rendered numeric argument.
fn args1(a: u64) -> (v: Vec<Vec<u8>>)
    ensures
        v@.len() == 1,
        v@[0]@ == dec_rep(a as nat),
        v.deep_view() == seq![dec_rep(a as nat)],
{
    let mut v: Vec<Vec<u8>> = Vec::new();
    v.push(render_u64(a));
    proof {
        lemma_vecvec_deep_view(v);
        assert(v.deep_view() =~~= seq![dec_rep(a as nat)]);
    }
    v
}

/// Two rendered numeric arguments.
fn args2(a: u64, b: u64) -> (v: Vec<Vec<u8>>)
    ensures
        v@.len() == 2,
        v@[0]@ == dec_rep(a as nat),
        v@[1]@ == dec_rep(b as nat),
        v.deep_view() == seq![dec_rep(a as nat), dec_rep(b as nat)],
{
    let mut v = args1(a);
    v.push(render_u64(b));
    proof {
        lemma_vecvec_deep_view(v);
        assert(v.deep_view() =~~= seq![dec_rep(a as nat), dec_rep(b as nat)]);
    }
    v
}

/// Three rendered numeric arguments.
fn args3(a: u64, b: u64, c: u64) -> (v: Vec<Vec<u8>>)
    ensures
        v@.len() == 3,
        v@[0]@ == dec_rep(a as nat),
        v@[1]@ == dec_rep(b as nat),
        v@[2]@ == dec_rep(c as nat),
        v.deep_view() == seq![dec_rep(a as nat), dec_rep(b as nat), dec_rep(c as nat)],
{
    let mut v = args2(a, b);
    v.push(render_u64(c));
    proof {
        lemma_vecvec_deep_view(v);
        assert(v.deep_view() =~~= seq![dec_rep(a as nat), dec_rep(b as nat), dec_rep(c as nat)]);
    }
    v
}

/// `put <pri> <delay> <ttr> <bytes>` with its payload.
pub open spec fn spec_put(body: Seq<u8>, priority: u32, delay_secs: u64, ttr_secs: u64) -> CommandView {
    CommandView {
        name: ascii_bytes("put"@),
        args: seq![
            dec_rep(priority as nat),
            dec_rep(delay_secs as nat),
            dec_rep(ttr_secs as nat),
            dec_rep(body.len()),
        ],
        body: Some(body),
        expected_ok: seq![Status::Inserted],
        expected_error: seq![
            Status::Buried,
            Status::ExpectedCrlf,
            Status::JobTooBig,
            Status::Draining,
        ],
    }
}

/// Enqueue a payload with the given priority, delay and time-to-run.
pub fn put(body: Vec<u8>, priority: u32, delay_secs: u64, ttr_secs: u64) -> (c: Command)
    ensures
        c@ == spec_put(body@, priority, delay_secs, ttr_secs),
{
    proof {
        reveal_strlit("put");
        assert(vstd::string::is_ascii("put"));
    }
    let mut args = args3(priority as u64, delay_secs, ttr_secs);
    args.push(render_u64(body.len() as u64));
    proof {
        lemma_vecvec_deep_view(args);
        assert(args.deep_view() =~~= seq![
            dec_rep(priority as nat),
            dec_rep(delay_secs as nat),
            dec_rep(ttr_secs as nat),
            dec_rep(body@.len()),
        ]);
    }
    let mut err = statuses2(Status::Buried, Status::ExpectedCrlf);
    err.push(Status::JobTooBig);
    err.push(Status::Draining);
    let c = Command {
        name: lit_bytes("put"),
        args,
        body: Some(body),
        expected_ok: statuses1(Status::Inserted),
        expected_error: err,
    };
    proof {
        assert(c@ =~~= spec_put(c@.body->Some_0, priority, delay_secs, ttr_secs));
    }
    c
}

/// `put` with the default priority, delay and time-to-run.
pub fn put_default(body: Vec<u8>) -> (c: Command)
    ensures
        c@ == spec_put(body@, DEFAULT_JOB_PRIORITY, DEFAULT_JOB_DELAY_SECS, DEFAULT_JOB_TTR_SECS),
{
    put(body, DEFAULT_JOB_PRIORITY, DEFAULT_JOB_DELAY_SECS, DEFAULT_JOB_TTR_SECS)
}

/// `reserve`, or `reserve-with-timeout <seconds>` when a timeout is given.
pub open spec fn spec_reserve(timeout_secs: Option<u64>) -> CommandView {
    CommandView {
        name: match timeout_secs {
            None => ascii_bytes("reserve"@),
            Some(_) => ascii_bytes("reserve-with-timeout"@),
        },
        args: match timeout_secs {
            None => Seq::empty(),
            Some(t) => seq![dec_rep(t as nat)],
        },
        body: None,
        expected_ok: seq![Status::Reserved],
        expected_error: seq![Status::DeadlineSoon, Status::TimedOut],
    }
}

/// Reserve the next ready job, waiting forever or at most the given time.
pub fn reserve(timeout_secs: Option<u64>) -> (c: Command)
    ensures
        c@ == spec_reserve(timeout_secs),
{
    let ok = statuses1(Status::Reserved);
    let err = statuses2(Status::DeadlineSoon, Status::TimedOut);
    let c = match timeout_secs {
        None => {
            proof {
                reveal_strlit("reserve");
                assert(vstd::string::is_ascii("reserve"));
            }
            Command {
                name: lit_bytes("reserve"),
                args: Vec::new(),
                body: None,
                expected_ok: ok,
                expected_error: err,
            }
        },
        Some(t) => {
            proof {
                reveal_strlit("reserve-with-timeout");
                assert(vstd::string::is_ascii("reserve-with-timeout"));
            }
            Command {
                name: lit_bytes("reserve-with-timeout"),
                args: args1(t),
                body: None,
                expected_ok: ok,
                expected_error: err,
            }
        },
    };
    proof {
        assert(c@ =~~= spec_reserve(timeout_secs));
    }
    c
}

/// `delete <id>`.
pub open spec fn spec_delete(job_id: u64) -> CommandView {
    CommandView {
        name: ascii_bytes("delete"@),
        args: seq![dec_rep(job_id as nat)],
        body: None,
        expected_ok: seq![Status::Deleted],
        expected_error: seq![Status::NotFound],
    }
}

/// Delete a job by id.
pub fn delete(job_id: u64) -> (c: Command)
    ensures
        c@ == spec_delete(job_id),
{
    proof {
        reveal_strlit("delete");
        assert(vstd::string::is_ascii("delete"));
    }
    let c = Command {
        name: lit_bytes("delete"),
        args: args1(job_id),
        body: None,
        expected_ok: statuses1(Status::Deleted),
        expected_error: statuses1(Status::NotFound),
    };
    proof {
        assert(c@ =~~= spec_delete(job_id));
    }
    c
}

/// `release <id> <pri> <delay>`.
pub open spec fn spec_release(job_id: u64, priority: u32, delay_secs: u64) -> CommandView {
    CommandView {
        name: ascii_bytes("release"@),
        args: seq![dec_rep(job_id as nat), dec_rep(priority as nat), dec_rep(delay_secs as nat)],
        body: None,
        expected_ok: seq![Status::Released],
        expected_error: seq![Status::Buried, Status::NotFound],
    }
}

/// Release a reserved job back to the ready queue.
pub fn release(job_id: u64, priority: u32, delay_secs: u64) -> (c: Command)
    ensures
        c@ == spec_release(job_id, priority, delay_secs),
{
    proof {
        reveal_strlit("release");
        assert(vstd::string::is_ascii("release"));
    }
    let c = Command {
        name: lit_bytes("release"),
        args: args3(job_id, priority as u64, delay_secs),
        body: None,
        expected_ok: statuses1(Status::Released),
        expected_error: statuses2(Status::Buried, Status::NotFound),
    };
    proof {
        assert(c@ =~~= spec_release(job_id, priority, delay_secs));
    }
    c
}

/// `bury <id> <pri>`.
pub open spec fn spec_bury(job_id: u64, priority: u32) -> CommandView {
    CommandView {
        name: ascii_bytes("bury"@),
        args: seq![dec_rep(job_id as nat), dec_rep(priority as nat)],
        body: None,
        expected_ok: seq![Status::Buried],
        expected_error: seq![Status::NotFound],
    }
}

/// Bury a job: park it until it is kicked.
pub fn bury(job_id: u64, priority: u32) -> (c: Command)
    ensures
        c@ == spec_bury(job_id, priority),
{
    proof {
        reveal_strlit("bury");
        assert(vstd::string::is_ascii("bury"));
    }
    let c = Command {
        name: lit_bytes("bury"),
        args: args2(job_id, priority as u64),
        body: None,
        expected_ok: statuses1(Status::Buried),
        expected_error: statuses1(Status::NotFound),
    };
    proof {
        assert(c@ =~~= spec_bury(job_id, priority));
    }
    c
}

/// `touch <id>`.
pub open spec fn spec_touch(job_id: u64) -> CommandView {
    CommandView {
        name: ascii_bytes("touch"@),
        args: seq![dec_rep(job_id as nat)],
        body: None,
        expected_ok: seq![Status::Touched],
        expected_error: seq![Status::NotFound],
    }
}

/// Ask for more time on a reserved job.
pub fn touch(job_id: u64) -> (c: Command)
    ensures
        c@ == spec_touch(job_id),
{
    proof {
        reveal_strlit("touch");
        assert(vstd::string::is_ascii("touch"));
    }
    let c = Command {
        name: lit_bytes("touch"),
        args: args1(job_id),
        body: None,
        expected_ok: statuses1(Status::Touched),
        expected_error: statuses1(Status::NotFound),
    };
    proof {
        assert(c@ =~~= spec_touch(job_id));
    }
    c
}

/// `kick <bound>`.
pub open spec fn spec_kick(bound: u32) -> CommandView {
    CommandView {
        name: ascii_bytes("kick"@),
        args: seq![dec_rep(bound as nat)],
        body: None,
        expected_ok: seq![Status::Kicked],
        expected_error: Seq::empty(),
    }
}

/// Kick at most `bound` buried or delayed jobs back to ready.
pub fn kick(bound: u32) -> (c: Command)
    ensures
        c@ == spec_kick(bound),
{
    proof {
        reveal_strlit("kick");
        assert(vstd::string::is_ascii("kick"));
    }
    let c = Command {
        name: lit_bytes("kick"),
        args: args1(bound as u64),
        body: None,
        expected_ok: statuses1(Status::Kicked),
        expected_error: statuses0(),
    };
    proof {
        assert(c@ =~~= spec_kick(bound));
    }
    c
}

/// `kick-job <id>`.
pub open spec fn spec_kick_job(job_id: u64) -> CommandView {
    CommandView {
        name: ascii_bytes("kick-job"@),
        args: seq![dec_rep(job_id as nat)],
        body: None,
        expected_ok: seq![Status::Kicked],
        expected_error: seq![Status::NotFound],
    }
}

/// Kick one specific job back to ready.
pub fn kick_job(job_id: u64) -> (c: Command)
    ensures
        c@ == spec_kick_job(job_id),
{
    proof {
        reveal_strlit("kick-job");
        assert(vstd::string::is_ascii("kick-job"));
    }
    let c = Command {
        name: lit_bytes("kick-job"),
        args: args1(job_id),
        body: None,
        expected_ok: statuses1(Status::Kicked),
        expected_error: statuses1(Status::NotFound),
    };
    proof {
        assert(c@ =~~= spec_kick_job(job_id));
    }
    c
}

/// A `peek`-family command: `<keyword>` with an optional id, expecting
/// `FOUND` against `NOT_FOUND`.
pub open spec fn spec_peek_cmd(name: Seq<char>, args: Seq<Seq<u8>>) -> CommandView {
    CommandView {
        name: ascii_bytes(name),
        args: args,
        body: None,
        expected_ok: seq![Status::Found],
        expected_error: seq![Status::NotFound],
    }
}

/// `peek <id>`: look at one job without reserving it.
pub fn peek_job(job_id: u64) -> (c: Command)
    ensures
        c@ == spec_peek_cmd("peek"@, seq![dec_rep(job_id as nat)]),
{
    proof {
        reveal_strlit("peek");
        assert(vstd::string::is_ascii("peek"));
    }
    let c = Command {
        name: lit_bytes("peek"),
        args: args1(job_id),
        body: None,
        expected_ok: statuses1(Status::Found),
        expected_error: statuses1(Status::NotFound),
    };
    proof {
        assert(c@ =~~= spec_peek_cmd("peek"@, seq![dec_rep(job_id as nat)]));
    }
    c
}

/// `peek-ready`: look at the next ready job.
pub fn peek_ready() -> (c: Command)
    ensures
        c@ == spec_peek_cmd("peek-ready"@, Seq::empty()),
{
    proof {
        reveal_strlit("peek-ready");
        assert(vstd::string::is_ascii("peek-ready"));
    }
    let c = Command {
        name: lit_bytes("peek-ready"),
        args: Vec::new(),
        body: None,
        expected_ok: statuses1(Status::Found),
        expected_error: statuses1(Status::NotFound),
    };
    proof {
        assert(c@ =~~= spec_peek_cmd("peek-ready"@, Seq::empty()));
    }
    c
}

/// `peek-delayed`: look at the delayed job with the shortest delay left.
pub fn peek_delayed() -> (c: Command)
    ensures
        c@ == spec_peek_cmd("peek-delayed"@, Seq::empty()),
{
    proof {
        reveal_strlit("peek-delayed");
        assert(vstd::string::is_ascii("peek-delayed"));
    }
    let c = Command {
        name: lit_bytes("peek-delayed"),
        args: Vec::new(),
        body: None,
        expected_ok: statuses1(Status::Found),
        expected_error: statuses1(Status::NotFound),
    };
    proof {
        assert(c@ =~~= spec_peek_cmd("peek-delayed"@, Seq::empty()));
    }
    c
}

/// `peek-buried`: look at the next buried job.
pub fn peek_buried() -> (c: Command)
    ensures
        c@ == spec_peek_cmd("peek-buried"@, Seq::empty()),
{
    proof {
        reveal_strlit("peek-buried");
        assert(vstd::string::is_ascii("peek-buried"));
    }
    let c = Command {
        name: lit_bytes("peek-buried"),
        args: Vec::new(),
        body: None,
        expected_ok: statuses1(Status::Found),
        expected_error: statuses1(Status::NotFound),
    };
    proof {
        assert(c@ =~~= spec_peek_cmd("peek-buried"@, Seq::empty()));
    }
    c
}

/// A bare command with a statistics or listing body: `<keyword>`, expecting
/// `OK` against the given failures.
pub open spec fn spec_bodied_query(name: Seq<char>, args: Seq<Seq<u8>>, err: Seq<Status>) -> CommandView {
    CommandView {
        name: ascii_bytes(name),
        args: args,
        body: None,
        expected_ok: seq![Status::Okay],
        expected_error: err,
    }
}

/// `list-tubes`: every tube the server knows.
pub fn tubes() -> (c: Command)
    ensures
        c@ == spec_bodied_query("list-tubes"@, Seq::empty(), Seq::empty()),
{
    proof {
        reveal_strlit("list-tubes");
        assert(vstd::string::is_ascii("list-tubes"));
    }
    let c = Command {
        name: lit_bytes("list-tubes"),
        args: Vec::new(),
        body: None,
        expected_ok: statuses1(Status::Okay),
        expected_error: statuses0(),
    };
    proof {
        assert(c@ =~~= spec_bodied_query("list-tubes"@, Seq::empty(), Seq::empty()));
    }
    c
}

/// `list-tube-used`: the tube `put` currently goes to.
pub fn using() -> (c: Command)
    ensures
        c@ == (CommandView {
            name: ascii_bytes("list-tube-used"@),
            args: Seq::empty(),
            body: None,
            expected_ok: seq![Status::Using],
            expected_error: Seq::empty(),
        }),
{
    proof {
        reveal_strlit("list-tube-used");
        assert(vstd::string::is_ascii("list-tube-used"));
    }
    let c = Command {
        name: lit_bytes("list-tube-used"),
        args: Vec::new(),
        body: None,
        expected_ok: statuses1(Status::Using),
        expected_error: statuses0(),
    };
    proof {
        assert(c@ =~~= (CommandView {
            name: ascii_bytes("list-tube-used"@),
            args: Seq::empty(),
            body: None,
            expected_ok: seq![Status::Using],
            expected_error: Seq::empty(),
        }));
    }
    c
}

/// `list-tubes-watched`: every tube this connection watches.
pub fn watching() -> (c: Command)
    ensures
        c@ == spec_bodied_query("list-tubes-watched"@, Seq::empty(), Seq::empty()),
{
    proof {
        reveal_strlit("list-tubes-watched");
        assert(vstd::string::is_ascii("list-tubes-watched"));
    }
    let c = Command {
        name: lit_bytes("list-tubes-watched"),
        args: Vec::new(),
        body: None,
        expected_ok: statuses1(Status::Okay),
        expected_error: statuses0(),
    };
    proof {
        assert(c@ =~~= spec_bodied_query("list-tubes-watched"@, Seq::empty(), Seq::empty()));
    }
    c
}

/// `use <tube>`.
pub open spec fn spec_use_tube(name: Seq<char>) -> CommandView {
    CommandView {
        name: ascii_bytes("use"@),
        args: seq![ascii_bytes(name)],
        body: None,
        expected_ok: seq![Status::Using],
        expected_error: Seq::empty(),
    }
}

/// Send later `put` commands to the named tube.
pub fn use_tube(name: &str) -> (c: Command)
    requires
        tube_name_wf(name@),
    ensures
        c@ == spec_use_tube(name@),
{
    proof {
        reveal_strlit("use");
        assert(vstd::string::is_ascii("use"));
    }
    let mut args: Vec<Vec<u8>> = Vec::new();
    args.push(ascii_str_to_bytes(name));
    proof {
        lemma_vecvec_deep_view(args);
        assert(args.deep_view() =~~= seq![ascii_bytes(name@)]);
    }
    let c = Command {
        name: lit_bytes("use"),
        args,
        body: None,
        expected_ok: statuses1(Status::Using),
        expected_error: statuses0(),
    };
    proof {
        assert(c@ =~~= spec_use_tube(name@));
    }
    c
}

/// `watch <tube>`.
pub open spec fn spec_watch(name: Seq<char>) -> CommandView {
    CommandView {
        name: ascii_bytes("watch"@),
        args: seq![ascii_bytes(name)],
        body: None,
        expected_ok: seq![Status::Watching],
        expected_error: Seq::empty(),
    }
}

/// Add the named tube to the watch list; the reply carries the new count.
pub fn watch(name: &str) -> (c: Command)
    requires
        tube_name_wf(name@),
    ensures
        c@ == spec_watch(name@),
{
    proof {
        reveal_strlit("watch");
        assert(vstd::string::is_ascii("watch"));
    }
    let mut args: Vec<Vec<u8>> = Vec::new();
    args.push(ascii_str_to_bytes(name));
    proof {
        lemma_vecvec_deep_view(args);
        assert(args.deep_view() =~~= seq![ascii_bytes(name@)]);
    }
    let c = Command {
        name: lit_bytes("watch"),
        args,
        body: None,
        expected_ok: statuses1(Status::Watching),
        expected_error: statuses0(),
    };
    proof {
        assert(c@ =~~= spec_watch(name@));
    }
    c
}

/// `ignore <tube>`.
pub open spec fn spec_ignore(name: Seq<char>) -> CommandView {
    CommandView {
        name: ascii_bytes("ignore"@),
        args: seq![ascii_bytes(name)],
        body: None,
        expected_ok: seq![Status::Watching],
        expected_error: seq![Status::NotIgnored],
    }
}

/// Drop the named tube from the watch list; ignoring the last watched tube
/// is a recognized failure, not an anomaly.
pub fn ignore(name: &str) -> (c: Command)
    requires
        tube_name_wf(name@),
    ensures
        c@ == spec_ignore(name@),
{
    proof {
        reveal_strlit("ignore");
        assert(vstd::string::is_ascii("ignore"));
    }
    let mut args: Vec<Vec<u8>> = Vec::new();
    args.push(ascii_str_to_bytes(name));
    proof {
        lemma_vecvec_deep_view(args);
        assert(args.deep_view() =~~= seq![ascii_bytes(name@)]);
    }
    let c = Command {
        name: lit_bytes("ignore"),
        args,
        body: None,
        expected_ok: statuses1(Status::Watching),
        expected_error: statuses1(Status::NotIgnored),
    };
    proof {
        assert(c@ =~~= spec_ignore(name@));
    }
    c
}

/// `stats`: server-wide statistics.
pub fn stats() -> (c: Command)
    ensures
        c@ == spec_bodied_query("stats"@, Seq::empty(), Seq::empty()),
{
    proof {
        reveal_strlit("stats");
        assert(vstd::string::is_ascii("stats"));
    }
    let c = Command {
        name: lit_bytes("stats"),
        args: Vec::new(),
        body: None,
        expected_ok: statuses1(Status::Okay),
        expected_error: statuses0(),
    };
    proof {
        assert(c@ =~~= spec_bodied_query("stats"@, Seq::empty(), Seq::empty()));
    }
    c
}

/// `stats-tube <tube>`.
pub open spec fn spec_stats_tube(name: Seq<char>) -> CommandView {
    spec_bodied_query("stats-tube"@, seq![ascii_bytes(name)], seq![Status::NotFound])
}

/// Statistics of one tube.
pub fn stats_tube(name: &str) -> (c: Command)
    requires
        tube_name_wf(name@),
    ensures
        c@ == spec_stats_tube(name@),
{
    proof {
        reveal_strlit("stats-tube");
        assert(vstd::string::is_ascii("stats-tube"));
    }
    let mut args: Vec<Vec<u8>> = Vec::new();
    args.push(ascii_str_to_bytes(name));
    proof {
        lemma_vecvec_deep_view(args);
        assert(args.deep_view() =~~= seq![ascii_bytes(name@)]);
    }
    let c = Command {
        name: lit_bytes("stats-tube"),
        args,
        body: None,
        expected_ok: statuses1(Status::Okay),
        expected_error: statuses1(Status::NotFound),
    };
    proof {
        assert(c@ =~~= spec_stats_tube(name@));
    }
    c
}

/// `stats-job <id>`.
pub open spec fn spec_stats_job(job_id: u64) -> CommandView {
    spec_bodied_query("stats-job"@, seq![dec_rep(job_id as nat)], seq![Status::NotFound])
}

/// Statistics of one job.
pub fn stats_job(job_id: u64) -> (c: Command)
    ensures
        c@ == spec_stats_job(job_id),
{
    proof {
        reveal_strlit("stats-job");
        assert(vstd::string::is_ascii("stats-job"));
    }
    let c = Command {
        name: lit_bytes("stats-job"),
        args: args1(job_id),
        body: None,
        expected_ok: statuses1(Status::Okay),
        expected_error: statuses1(Status::NotFound),
    };
    proof {
        assert(c@ =~~= spec_stats_job(job_id));
    }
    c
}

/// `pause-tube <tube> <delay>`.
pub open spec fn spec_pause_tube(name: Seq<char>, delay_secs: u64) -> CommandView {
    CommandView {
        name: ascii_bytes("pause-tube"@),
        args: seq![ascii_bytes(name), dec_rep(delay_secs as nat)],
        body: None,
        expected_ok: seq![Status::Paused],
        expected_error: seq![Status::NotFound],
    }
}

/// Pause the named tube for a number of seconds; a missing tube is a
/// recognized failure.
pub fn pause_tube(name: &str, delay_secs: u64) -> (c: Command)
    requires
        tube_name_wf(name@),
    ensures
        c@ == spec_pause_tube(name@, delay_secs),
{
    proof {
        reveal_strlit("pause-tube");
        assert(vstd::string::is_ascii("pause-tube"));
    }
    let mut args: Vec<Vec<u8>> = Vec::new();
    args.push(ascii_str_to_bytes(name));
    args.push(render_u64(delay_secs));
    proof {
        lemma_vecvec_deep_view(args);
        assert(args.deep_view() =~~= seq![ascii_bytes(name@), dec_rep(delay_secs as nat)]);
    }
    let c = Command {
        name: lit_bytes("pause-tube"),
        args,
        body: None,
        expected_ok: statuses1(Status::Paused),
        expected_error: statuses1(Status::NotFound),
    };
    proof {
        assert(c@ =~~= spec_pause_tube(name@, delay_secs));
    }
    c
}

/// `quit`: close the conversation; no status set applies because no reply
/// is read.
pub open spec fn spec_quit() -> CommandView {
    CommandView {
        name: ascii_bytes("quit"@),
        args: Seq::empty(),
        body: None,
        expected_ok: Seq::empty(),
        expected_error: Seq::empty(),
    }
}

/// End the conversation.
pub fn quit() -> (c: Command)
    ensures
        c@ == spec_quit(),
{
    proof {
        reveal_strlit("quit");
        assert(vstd::string::is_ascii("quit"));
    }
    let c = Command {
        name: lit_bytes("quit"),
        args: Vec::new(),
        body: None,
        expected_ok: statuses0(),
        expected_error: statuses0(),
    };
    proof {
        assert(c@ =~~= spec_quit());
    }
    c
}

} // verus!
