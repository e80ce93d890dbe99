//! The response framer.
//!
//! A response is one status line — delimiter-terminated, split on
//! whitespace into a status token and its parameters — followed, for the
//! body-bearing statuses, by exactly the number of body bytes a declared
//! argument slot names, plus the two-byte line delimiter. The framer turns
//! raw wire bytes into a [`Response`], never guessing at a body length and
//! never passing an unknown status through silently.

use vstd::prelude::*;
use vstd::string::StringExecFns;

use crate::error::BeanstalkcError;
use crate::number::{dec_val_chars, digits_chars};
use crate::response::{entries_ascii, Response};
use crate::scan::{find_lf, find_lf_at, tokenize, tokens_of};
use crate::status::{body_slot, spec_body_slot, status_from_token, status_of, Status};
use crate::text::{all_ascii, ascii_to_string, ascii_view, bytes_subrange, is_all_ascii};

verus! {

/// The first line of a wire buffer, through its newline; the whole buffer
/// when no newline has arrived.
pub open spec fn spec_line_of(w: Seq<u8>) -> Seq<u8> {
    match find_lf(w) {
        None => w,
        Some(j) => w.take(j + 1),
    }
}

/// What follows the first line of a wire buffer.
pub open spec fn spec_rest_of(w: Seq<u8>) -> Seq<u8> {
    match find_lf(w) {
        None => Seq::empty(),
        Some(j) => w.skip(j + 1),
    }
}

/// The whitespace tokens of the first line.
pub open spec fn decode_tokens(w: Seq<u8>) -> Seq<Seq<u8>> {
    tokens_of(spec_line_of(w))
}

/// The status line alone is malformed: no token at all, an unrecognized
/// status token, a non-ASCII parameter, or a body-bearing status whose
/// declared length slot is missing or not a number that fits.
pub open spec fn decode_malformed(w: Seq<u8>) -> bool {
    let ts = decode_tokens(w);
    ||| ts.len() == 0
    ||| status_of(ts[0]) is None
    ||| !entries_ascii(ts.drop_first())
    ||| (status_of(ts[0]) matches Some(st) && spec_body_slot(st) matches Some(slot) && !(
    slot + 1 < ts.len() && digits_chars(ascii_view(ts[slot + 1])) && dec_val_chars(
        ascii_view(ts[slot + 1]),
    ) <= usize::MAX))
}

/// The status of a well-formed frame.
pub open spec fn decode_status(w: Seq<u8>) -> Status {
    status_of(decode_tokens(w)[0])->Some_0
}

/// The parameters of a well-formed frame: every status-line token after the
/// first, in order, as text.
pub open spec fn decode_params(w: Seq<u8>) -> Seq<Seq<char>> {
    let ts = decode_tokens(w);
    Seq::new((ts.len() - 1) as nat, |i: int| ascii_view(ts[i + 1]))
}

/// The declared body length of a well-formed frame, if its status carries a
/// body.
pub open spec fn decode_body_len(w: Seq<u8>) -> Option<int> {
    match spec_body_slot(decode_status(w)) {
        None => None,
        Some(slot) => Some(dec_val_chars(ascii_view(decode_tokens(w)[slot + 1]))),
    }
}

/// The status line declares a body that the buffer does not hold in full:
/// fewer bytes follow the line than the declared length plus the two-byte
/// delimiter. A short read is a fatal transport error, never a silent
/// truncation.
pub open spec fn decode_short(w: Seq<u8>) -> bool {
    !decode_malformed(w) && (decode_body_len(w) matches Some(n) && spec_rest_of(w).len() < n + 2)
}

/// The buffer decodes to a frame: its status line is well formed and any
/// declared body arrived in full.
pub open spec fn decode_ok(w: Seq<u8>) -> bool {
    !decode_malformed(w) && !decode_short(w)
}

/// The body of a well-formed frame: the declared number of bytes after the
/// status line, the trailing delimiter dropped; `None` for a status that
/// carries no body.
pub open spec fn decode_body(w: Seq<u8>) -> Option<Seq<u8>> {
    match decode_body_len(w) {
        None => None,
        Some(n) => Some(spec_rest_of(w).take(n)),
    }
}

/// `resp` is exactly the frame the wire bytes decode to.
pub open spec fn is_decoded_frame(w: Seq<u8>, resp: Response) -> bool {
    &&& decode_ok(w)
    &&& resp.status == decode_status(w)
    &&& resp.params@.len() == decode_params(w).len()
    &&& forall|i: int|
        0 <= i < decode_params(w).len() ==> (#[trigger] resp.params@[i])@ == decode_params(w)[i]
    &&& (decode_body(w) is None <==> resp.body is None)
    &&& (resp.body matches Some(b) ==> decode_body(w) == Some(b@))
}

/// Split one status line into its status and parameters. The line is
/// rejected as a protocol error when it holds no token, its first token is
/// no known status, or a parameter is not ASCII text.
pub fn parse_status_line(line: &[u8]) -> (r: Result<(Status, Vec<String>), BeanstalkcError>)
    ensures
        ({
            let ts = tokens_of(line@);
            &&& r is Ok <==> (ts.len() > 0 && status_of(ts[0]) is Some && entries_ascii(
                ts.drop_first(),
            ))
            &&& r matches Ok(p) ==> status_of(ts[0]) == Some(p.0) && p.1@.len() == ts.len() - 1
                && forall|i: int|
                0 <= i < ts.len() - 1 ==> (#[trigger] p.1@[i])@ == ascii_view(ts[i + 1])
            &&& r matches Err(e) ==> e matches BeanstalkcError::ProtocolError(_)
        }),
{
    let toks = tokenize(line);
    let ghost ts = tokens_of(line@);
    proof {
        assert(toks@.len() == ts.len());
    }
    if toks.len() == 0 {
        return Err(BeanstalkcError::ProtocolError(String::from_str("empty response")));
    }
    proof {
        assert(toks@[0].deep_view() == ts[0]);
        assert(toks@[0]@ =~= ts[0]);
    }
    let st = match status_from_token(toks[0].as_slice()) {
        Some(st) => st,
        None => {
            return Err(BeanstalkcError::ProtocolError(String::from_str("unrecognized status")));
        },
    };
    let mut params: Vec<String> = Vec::new();
    let mut i: usize = 1;
    while i < toks.len()
        invariant
            ts == tokens_of(line@),
            toks.deep_view() == ts,
            toks@.len() == ts.len(),
            1 <= i <= ts.len(),
            params@.len() == i - 1,
            forall|k: int| 0 <= k < i - 1 ==> (#[trigger] params@[k])@ == ascii_view(ts[k + 1]),
            forall|k: int| 0 <= k < i - 1 ==> crate::text::all_ascii(#[trigger] ts.drop_first()[k]),
        decreases ts.len() - i,
    {
        proof {
            assert(toks@[i as int].deep_view() == ts[i as int]);
            assert(toks@[i as int]@ =~= ts[i as int]);
            assert(ts.drop_first()[i - 1] == ts[i as int]);
        }
        let t: &Vec<u8> = &toks[i];
        if !is_all_ascii(t.as_slice()) {
            proof {
                assert(!all_ascii(ts.drop_first()[i - 1]));
                assert(!entries_ascii(ts.drop_first()));
            }
            return Err(BeanstalkcError::ProtocolError(String::from_str("non-ascii parameter")));
        }
        let s = ascii_to_string(t.as_slice());
        params.push(s);
        i += 1;
    }
    proof {
        assert(entries_ascii(ts.drop_first()));
    }
    Ok((st, params))
}

/// From a parsed status line, how many body bytes follow: `Ok(None)` for a
/// status without a body, the declared length for one with a body, and a
/// protocol error when the declared slot is missing or not a number that
/// fits.
pub fn body_length(status: Status, params: &Vec<String>) -> (r: Result<
    Option<usize>,
    BeanstalkcError,
>)
    ensures
        spec_body_slot(status) is None ==> r == Ok::<Option<usize>, BeanstalkcError>(
            None::<usize>,
        ),
        spec_body_slot(status) matches Some(slot) ==> {
            let fits = slot < params@.len() && digits_chars(params@[slot as int]@)
                && dec_val_chars(params@[slot as int]@) <= usize::MAX;
            &&& r is Ok <==> fits
            &&& r matches Ok(o) ==> o matches Some(n) && n == dec_val_chars(
                params@[slot as int]@,
            )
            &&& r matches Err(e) ==> e matches BeanstalkcError::ProtocolError(_)
        },
{
    match body_slot(status) {
        None => Ok(None),
        Some(slot) => {
            if slot >= params.len() {
                return Err(
                    BeanstalkcError::ProtocolError(String::from_str("missing length parameter")),
                );
            }
            match crate::number::parse_u64_str(params[slot].as_str()) {
                Some(v) => {
                    if v <= usize::MAX as u64 {
                        Ok(Some(v as usize))
                    } else {
                        Err(
                            BeanstalkcError::ProtocolError(
                                String::from_str("oversized length parameter"),
                            ),
                        )
                    }
                },
                None => Err(
                    BeanstalkcError::ProtocolError(String::from_str("non-numeric length")),
                ),
            }
        },
    }
}

/// The declared body bytes without their trailing delimiter.
pub fn take_body(raw: &[u8], n: usize) -> (r: Vec<u8>)
    requires
        n + 2 <= raw@.len(),
    ensures
        r@ == raw@.take(n as int),
{
    let r = bytes_subrange(raw, 0, n);
    proof {
        assert(raw@.subrange(0, n as int) =~= raw@.take(n as int));
    }
    r
}

/// Decode one whole response frame from wire bytes: the status line, then
/// the declared body, if any. Bytes past the frame are left alone.
pub fn decode_frame(wire: &[u8]) -> (r: Result<Response, BeanstalkcError>)
    ensures
        r is Ok <==> decode_ok(wire@),
        r matches Ok(resp) ==> {
            &&& resp.status == decode_status(wire@)
            &&& resp.params@.len() == decode_params(wire@).len()
            &&& forall|i: int|
                0 <= i < decode_params(wire@).len() ==> (#[trigger] resp.params@[i])@
                    == decode_params(wire@)[i]
            &&& (decode_body(wire@) is None <==> resp.body is None)
            &&& resp.body matches Some(b) ==> decode_body(wire@) == Some(b@)
        },
        r matches Err(e) ==> (decode_malformed(wire@) && e matches BeanstalkcError::ProtocolError(
            _,
        )) || (decode_short(wire@) && e matches BeanstalkcError::IoError(_)),
{
    let n = wire.len();
    let line_end: usize = match find_lf_at(wire) {
        Some(j) => j + 1,
        None => n,
    };
    let line = bytes_subrange(wire, 0, line_end);
    proof {
        assert(line@ == spec_line_of(wire@)) by {
            match find_lf(wire@) {
                Some(j) => {
                    assert(wire@.subrange(0, j + 1) =~= wire@.take(j + 1));
                },
                None => {
                    assert(wire@.subrange(0, n as int) =~= wire@);
                },
            }
        }
    }
    let (st, params) = match parse_status_line(line.as_slice()) {
        Ok(p) => p,
        Err(e) => {
            return Err(e);
        },
    };
    let ghost ts = decode_tokens(wire@);
    match body_length(st, &params) {
        Ok(None) => {
            proof {
                assert(!decode_malformed(wire@));
                assert(decode_body(wire@) is None);
                assert(forall|i: int|
                    0 <= i < decode_params(wire@).len() ==> decode_params(wire@)[i] == ascii_view(
                        ts[i + 1],
                    ));
            }
            Ok(Response { status: st, params, body: None })
        },
        Ok(Some(len)) => {
            proof {
                let slot = spec_body_slot(st)->Some_0;
                assert(slot < params@.len());
                assert(ts.drop_first()[slot as int] == ts[slot + 1]);
                assert(!decode_malformed(wire@));
                assert(decode_body_len(wire@) == Some(len as int));
            }
            let rest_start = line_end;
            let rest_len = n - rest_start;
            proof {
                assert(wire@.skip(rest_start as int) =~= spec_rest_of(wire@)) by {
                    match find_lf(wire@) {
                        Some(j) => {},
                        None => {
                            assert(wire@.skip(n as int) =~= Seq::<u8>::empty());
                        },
                    }
                }
            }
            if rest_len < 2 || rest_len - 2 < len {
                proof {
                    assert(decode_short(wire@));
                }
                return Err(BeanstalkcError::IoError(String::from_str("short body read")));
            }
            let body = bytes_subrange(wire, rest_start, rest_start + len);
            proof {
                assert(body@ =~= spec_rest_of(wire@).take(len as int));
            }
            Ok(Response { status: st, params, body: Some(body) })
        },
        Err(e) => {
            proof {
                let slot = spec_body_slot(st)->Some_0;
                if slot < params@.len() {
                    assert(ts.drop_first()[slot as int] == ts[slot + 1]);
                } else {
                    assert(!(slot + 1 < ts.len()));
                }
                assert(decode_malformed(wire@));
            }
            Err(e)
        },
    }
}

} // verus!
