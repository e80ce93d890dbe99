//! A decoded server response: the status token, the remaining textual
//! parameters of the status line in order, and the raw body bytes when the
//! status carries a body. Typed access to parameters and the two body
//! shapes (tube listings and `key: value` statistics) live here.

use vstd::prelude::*;
use vstd::string::StringExecFns;

use crate::error::BeanstalkcError;
use crate::number::{dec_val_chars, digits_chars, parse_u64_str};
use crate::scan::{find_kv_sep, find_kv_sep_at, split_lines, split_lines_vec, trim_bytes, trimmed};
use crate::status::Status;
use crate::text::{all_ascii, ascii_to_string, ascii_view, bytes_subrange, is_all_ascii};

verus! {

/// One framed response from the server.
pub struct Response {
    pub status: Status,
    pub params: Vec<String>,
    pub body: Option<Vec<u8>>,
}

impl Response {
    /// The body bytes, an empty sequence standing for an absent body.
    pub open spec fn body_bytes(&self) -> Seq<u8> {
        match self.body {
            Some(b) => b@,
            None => Seq::empty(),
        }
    }

    /// The parameter in slot `i` of the status line, or a protocol error
    /// when the slot is missing.
    pub fn get_param(&self, i: usize) -> (r: Result<String, BeanstalkcError>)
        ensures
            r is Ok <==> i < self.params@.len(),
            r matches Ok(v) ==> v@ == self.params@[i as int]@,
            r matches Err(e) ==> e matches BeanstalkcError::ProtocolError(_),
    {
        if i < self.params.len() {
            Ok(self.params[i].clone())
        } else {
            Err(BeanstalkcError::ProtocolError(String::from_str("missing parameter")))
        }
    }

    /// The parameter in slot `i` read as a decimal integer, or a protocol
    /// error when the slot is missing or not a plain decimal number.
    pub fn get_int_param(&self, i: usize) -> (r: Result<u64, BeanstalkcError>)
        ensures
            r is Ok <==> (i < self.params@.len() && digits_chars(self.params@[i as int]@)
                && dec_val_chars(self.params@[i as int]@) <= u64::MAX),
            r matches Ok(v) ==> v == dec_val_chars(self.params@[i as int]@),
            r matches Err(e) ==> e matches BeanstalkcError::ProtocolError(_),
    {
        if i >= self.params.len() {
            return Err(BeanstalkcError::ProtocolError(String::from_str("missing parameter")));
        }
        match parse_u64_str(self.params[i].as_str()) {
            Some(v) => Ok(v),
            None => Err(
                BeanstalkcError::ProtocolError(String::from_str("non-numeric parameter")),
            ),
        }
    }

    /// The job id a job-bearing response puts in slot 0.
    pub fn job_id(&self) -> (r: Result<u64, BeanstalkcError>)
        ensures
            r is Ok <==> (0 < self.params@.len() && digits_chars(self.params@[0]@)
                && dec_val_chars(self.params@[0]@) <= u64::MAX),
            r matches Ok(v) ==> v == dec_val_chars(self.params@[0]@),
            r matches Err(e) ==> e matches BeanstalkcError::ProtocolError(_),
    {
        self.get_int_param(0)
    }

    /// The body read as a tube listing, in server order.
    pub fn body_as_vec(&self) -> (r: Result<Vec<String>, BeanstalkcError>)
        ensures
            r is Ok <==> entries_ascii(spec_tube_list(self.body_bytes())),
            r matches Ok(v) ==> {
                let list = spec_tube_list(self.body_bytes());
                v@.len() == list.len() && forall|k: int|
                    0 <= k < list.len() ==> (#[trigger] v@[k])@ == ascii_view(list[k])
            },
            r matches Err(e) ==> e matches BeanstalkcError::ProtocolError(_),
    {
        let empty_body: Vec<u8> = Vec::new();
        let body_ref: &Vec<u8> = match &self.body {
            Some(b) => b,
            None => &empty_body,
        };
        proof {
            assert(body_ref@ =~= self.body_bytes());
        }
        let tb = trim_bytes(body_ref.as_slice());
        let lines = split_lines_vec(tb.as_slice());
        let ghost linesv = split_lines(trimmed(self.body_bytes()));
        let ghost list = spec_tube_list(self.body_bytes());
        proof {
            assert(lines.deep_view().len() == linesv.len());
            assert(lines@.len() == linesv.len());
            assert(linesv.len() >= 1) by {
                crate::scan::lemma_split_lines_nonempty(trimmed(self.body_bytes()));
            }
            assert(list.len() == linesv.len() - 1);
        }
        let mut out: Vec<String> = Vec::new();
        let mut i: usize = 1;
        while i < lines.len()
            invariant
                lines.deep_view() == linesv,
                lines@.len() == linesv.len(),
                linesv.len() >= 1,
                list == spec_tube_list(self.body_bytes()),
                list.len() == linesv.len() - 1,
                list == linesv.drop_first().map_values(|l: Seq<u8>| strip_dash(l)),
                1 <= i <= linesv.len(),
                out@.len() == i - 1,
                forall|k: int| 0 <= k < i - 1 ==> (#[trigger] out@[k])@ == ascii_view(list[k]),
                forall|k: int| 0 <= k < i - 1 ==> all_ascii(#[trigger] list[k]),
            decreases linesv.len() - i,
        {
            let t: &Vec<u8> = &lines[i];
            proof {
                assert(lines@[i as int].deep_view() == linesv[i as int]);
                assert(t@ == linesv[i as int]);
                assert(list[i - 1] == strip_dash(linesv[i as int]));
            }
            let entry: Vec<u8> = if t.len() >= 2 && t[0] == 45 && t[1] == 32 {
                let e = bytes_subrange(t.as_slice(), 2, t.len());
                proof {
                    assert(e@ =~= strip_dash(t@));
                }
                e
            } else {
                let e = bytes_subrange(t.as_slice(), 0, t.len());
                proof {
                    assert(e@ =~= strip_dash(t@));
                }
                e
            };
            if !is_all_ascii(entry.as_slice()) {
                proof {
                    assert(!all_ascii(list[i - 1]));
                    assert(!entries_ascii(list));
                }
                return Err(
                    BeanstalkcError::ProtocolError(String::from_str("non-ascii listing entry")),
                );
            }
            let s = ascii_to_string(entry.as_slice());
            out.push(s);
            i += 1;
        }
        proof {
            assert(out@.len() == list.len());
            assert(entries_ascii(list));
        }
        Ok(out)
    }

    /// The body read as ordered `key: value` statistics pairs. Lines that
    /// are empty, hold no `": "` separator, or open a `---` header are
    /// passed over; the rest keep the server's order.
    pub fn body_as_map(&self) -> (r: Result<Vec<(String, String)>, BeanstalkcError>)
        ensures
            r is Ok <==> pairs_ascii(spec_stat_pairs(self.body_bytes())),
            r matches Ok(v) ==> {
                let ps = spec_stat_pairs(self.body_bytes());
                v@.len() == ps.len() && forall|k: int|
                    0 <= k < ps.len() ==> (#[trigger] v@[k]).0@ == ascii_view(ps[k].0)
                        && v@[k].1@ == ascii_view(ps[k].1)
            },
            r matches Err(e) ==> e matches BeanstalkcError::ProtocolError(_),
    {
        let empty_body: Vec<u8> = Vec::new();
        let body_ref: &Vec<u8> = match &self.body {
            Some(b) => b,
            None => &empty_body,
        };
        proof {
            assert(body_ref@ =~= self.body_bytes());
        }
        let tb = trim_bytes(body_ref.as_slice());
        let lines = split_lines_vec(tb.as_slice());
        let ghost linesv = split_lines(trimmed(self.body_bytes()));
        let ghost ps = spec_stat_pairs(self.body_bytes());
        let mut out: Vec<(String, String)> = Vec::new();
        let ghost mut done: Seq<(Seq<u8>, Seq<u8>)> = Seq::empty();
        let mut i: usize = 0;
        proof {
            assert(lines@.len() == linesv.len());
            assert(linesv.skip(0) =~= linesv);
            assert(done + stat_pairs_of(linesv) =~~= ps);
        }
        while i < lines.len()
            invariant
                lines.deep_view() == linesv,
                lines@.len() == linesv.len(),
                ps == spec_stat_pairs(self.body_bytes()),
                0 <= i <= linesv.len(),
                ps == done + stat_pairs_of(linesv.skip(i as int)),
                out@.len() == done.len(),
                forall|k: int| 0 <= k < done.len() ==> (#[trigger] out@[k]).0@ == ascii_view(
                    done[k].0,
                ) && out@[k].1@ == ascii_view(done[k].1),
                forall|k: int| 0 <= k < done.len() ==> all_ascii((#[trigger] done[k]).0)
                    && all_ascii(done[k].1),
            decreases linesv.len() - i,
        {
            proof {
                assert(lines@[i as int].deep_view() == linesv[i as int]);
                assert(linesv.skip(i as int)[0] == linesv[i as int]);
                assert(linesv.skip(i as int).drop_first() =~= linesv.skip(i + 1));
            }
            let t = trim_bytes(lines[i].as_slice());
            proof {
                assert(lines@[i as int]@ =~= lines@[i as int].deep_view());
                assert(t@ == trimmed(linesv[i as int]));
            }
            let is_header = t.len() >= 3 && t[0] == 45 && t[1] == 45 && t[2] == 45;
            proof {
                assert(is_header == is_stat_header(t@));
            }
            if !is_header {
                match find_kv_sep_at(t.as_slice()) {
                    Some(j) => {
                        proof {
                            assert(j + 2 <= t@.len()) by {
                                lemma_kv_sep_in_range(t@);
                            }
                            assert(line_pair(linesv[i as int]) == Some(
                                (t@.take(j as int), t@.skip(j + 2)),
                            ));
                        }
                        let key = bytes_subrange(t.as_slice(), 0, j);
                        let val = bytes_subrange(t.as_slice(), j + 2, t.len());
                        proof {
                            assert(key@ =~= t@.take(j as int));
                            assert(val@ =~= t@.skip(j + 2));
                        }
                        if !is_all_ascii(key.as_slice()) || !is_all_ascii(val.as_slice()) {
                            proof {
                                let p = (t@.take(j as int), t@.skip(j + 2));
                                assert(ps[done.len() as int] == p);
                                assert(!pairs_ascii(ps));
                            }
                            return Err(
                                BeanstalkcError::ProtocolError(
                                    String::from_str("non-ascii statistics entry"),
                                ),
                            );
                        }
                        let ks = ascii_to_string(key.as_slice());
                        let vs = ascii_to_string(val.as_slice());
                        out.push((ks, vs));
                        proof {
                            done = done.push((key@, val@));
                            assert(ps =~~= done + stat_pairs_of(linesv.skip(i + 1)));
                        }
                    },
                    None => {
                        proof {
                            assert(line_pair(linesv[i as int]) is None);
                        }
                    },
                }
            } else {
                proof {
                    assert(line_pair(linesv[i as int]) is None);
                }
            }
            i += 1;
        }
        proof {
            assert(linesv.skip(linesv.len() as int) =~= Seq::<Seq<u8>>::empty());
            assert(ps =~~= done);
            assert(pairs_ascii(ps));
        }
        Ok(out)
    }
}

/// A listing line without its `- ` marker.
pub open spec fn strip_dash(l: Seq<u8>) -> Seq<u8> {
    if l.len() >= 2 && l[0] == 45 && l[1] == 32 {
        l.skip(2)
    } else {
        l
    }
}

/// The tube names of a listing body: the body is trimmed, split at
/// newlines, its header line dropped, and each remaining line loses its
/// `- ` marker.
pub open spec fn spec_tube_list(body: Seq<u8>) -> Seq<Seq<u8>> {
    split_lines(trimmed(body)).drop_first().map_values(|l: Seq<u8>| strip_dash(l))
}

/// Every listing entry is ASCII.
pub open spec fn entries_ascii(es: Seq<Seq<u8>>) -> bool {
    forall|i: int| 0 <= i < es.len() ==> all_ascii(#[trigger] es[i])
}

/// A trimmed line that opens a `---` header.
pub open spec fn is_stat_header(t: Seq<u8>) -> bool {
    t.len() >= 3 && t[0] == 45 && t[1] == 45 && t[2] == 45
}

/// The `key: value` pair of one statistics line, if the line carries one.
pub open spec fn line_pair(l: Seq<u8>) -> Option<(Seq<u8>, Seq<u8>)> {
    let t = trimmed(l);
    if is_stat_header(t) {
        None
    } else {
        match find_kv_sep(t) {
            None => None,
            Some(j) => Some((t.take(j), t.skip(j + 2))),
        }
    }
}

/// The pairs of a sequence of statistics lines, in order.
pub open spec fn stat_pairs_of(lines: Seq<Seq<u8>>) -> Seq<(Seq<u8>, Seq<u8>)>
    decreases lines.len(),
{
    if lines.len() == 0 {
        Seq::empty()
    } else {
        let rest = stat_pairs_of(lines.drop_first());
        match line_pair(lines[0]) {
            None => rest,
            Some(p) => seq![p] + rest,
        }
    }
}

/// The `key: value` pairs of a statistics body, in server order.
pub open spec fn spec_stat_pairs(body: Seq<u8>) -> Seq<(Seq<u8>, Seq<u8>)> {
    stat_pairs_of(split_lines(trimmed(body)))
}

/// Every key and value of the pairs is ASCII.
pub open spec fn pairs_ascii(ps: Seq<(Seq<u8>, Seq<u8>)>) -> bool {
    forall|i: int| 0 <= i < ps.len() ==> all_ascii((#[trigger] ps[i]).0) && all_ascii(ps[i].1)
}

/// A found separator leaves room for the two separator bytes.
proof fn lemma_kv_sep_in_range(s: Seq<u8>)
    ensures
        find_kv_sep(s) matches Some(j) ==> 0 <= j && j + 2 <= s.len(),
    decreases s.len(),
{
    if s.len() >= 2 {
        lemma_kv_sep_in_range(s.drop_first());
    }
}

} // verus!
