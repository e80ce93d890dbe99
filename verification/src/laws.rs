//! The encode/decode round trip for the one payload-carrying command.
//!
//! A put command's wire bytes, read back the way a server reads them — one
//! line through its delimiter, then exactly as many payload bytes as the
//! line's last argument declares — give back the payload unchanged, with
//! the delimiter after it. The length prefix, not any terminator scan,
//! delimits the payload, so the payload may hold any bytes at all.

use vstd::prelude::*;

use crate::command::{args_wire, spec_put, wire_of};
use crate::frame::{spec_line_of, spec_rest_of};
use crate::number::{dec_rep, dec_val_chars, lemma_dec_rep_digits, lemma_dec_rep_val};
use crate::scan::{is_ws, lemma_find_lf_exact, lemma_tokens_prepend_token, tokens_of};
use crate::text::{ascii_bytes, ascii_view};

verus! {

/// The line delimiter closes a token run and then ends the tokens.
proof fn lemma_tokens_of_crlf()
    ensures
        tokens_of(seq![13u8, 10u8]).len() == 0,
{
    let s = seq![13u8, 10u8];
    assert(tokens_of(Seq::<u8>::empty()).len() == 0);
    assert(tokens_of(seq![10u8]).len() == 0) by {
        assert(is_ws(seq![10u8][0]));
        assert(seq![10u8].drop_first() =~= Seq::<u8>::empty());
    }
    assert(is_ws(s[0]));
    assert(s.drop_first() =~= seq![10u8]);
}

/// One space-prefixed argument run: a space, the argument's digits, and
/// whatever follows, tokenizes to the argument and the rest's tokens.
proof fn lemma_tokens_of_spaced_arg(arg: Seq<u8>, rest: Seq<u8>)
    requires
        arg.len() > 0,
        forall|i: int| 0 <= i < arg.len() ==> !is_ws(#[trigger] arg[i]),
        rest.len() == 0 || is_ws(rest[0]),
    ensures
        tokens_of(seq![32u8] + arg + rest) == seq![arg] + tokens_of(rest),
{
    let s = seq![32u8] + arg + rest;
    assert(is_ws(s[0]));
    assert(s.drop_first() =~= arg + rest);
    lemma_tokens_prepend_token(arg, rest);
}

/// Encoding a put command and decoding the bytes as a server would: the
/// request line tokenizes to the keyword and the four rendered arguments,
/// whose last one declares exactly the payload's length; reading that many
/// bytes after the line recovers the payload unchanged, and the two
/// delimiter bytes follow it.
#[verifier::rlimit(100)]
pub proof fn lemma_put_round_trip(body: Seq<u8>, priority: u32, delay_secs: u64, ttr_secs: u64)
    ensures
        ({
            let w = wire_of(spec_put(body, priority, delay_secs, ttr_secs));
            let line = spec_line_of(w);
            let toks = tokens_of(line);
            &&& toks =~~= seq![
                ascii_bytes("put"@),
                dec_rep(priority as nat),
                dec_rep(delay_secs as nat),
                dec_rep(ttr_secs as nat),
                dec_rep(body.len()),
            ]
            &&& dec_val_chars(ascii_view(toks[4])) == body.len()
            &&& spec_rest_of(w).take(body.len() as int) == body
            &&& spec_rest_of(w).skip(body.len() as int) == seq![13u8, 10u8]
        }),
{
    let c = spec_put(body, priority, delay_secs, ttr_secs);
    let d1 = dec_rep(priority as nat);
    let d2 = dec_rep(delay_secs as nat);
    let d3 = dec_rep(ttr_secs as nat);
    let d4 = dec_rep(body.len());
    let name = ascii_bytes("put"@);
    reveal_strlit("put");
    assert(name.len() == 3 && name[0] == 112 && name[1] == 117 && name[2] == 116);
    lemma_dec_rep_digits(priority as nat);
    lemma_dec_rep_digits(delay_secs as nat);
    lemma_dec_rep_digits(ttr_secs as nat);
    lemma_dec_rep_digits(body.len());
    lemma_dec_rep_val(body.len());

    // The argument run of the request line, unrolled.
    let args = c.args;
    assert(args =~~= seq![d1, d2, d3, d4]);
    assert(args.drop_last() =~~= seq![d1, d2, d3]);
    assert(seq![d1, d2, d3].drop_last() =~~= seq![d1, d2]);
    assert(seq![d1, d2].drop_last() =~~= seq![d1]);
    assert(seq![d1].drop_last() =~~= Seq::<Seq<u8>>::empty());
    assert(args_wire(Seq::<Seq<u8>>::empty()) =~= Seq::<u8>::empty());
    assert(args_wire(seq![d1]) =~= seq![32u8] + d1);
    assert(args_wire(seq![d1, d2]) =~= seq![32u8] + d1 + (seq![32u8] + d2));
    assert(args_wire(seq![d1, d2, d3]) =~= seq![32u8] + d1 + (seq![32u8] + d2) + (seq![32u8]
        + d3));
    assert(args_wire(args) =~= seq![32u8] + d1 + (seq![32u8] + d2) + (seq![32u8] + d3) + (
    seq![32u8] + d4));

    let crlf = seq![13u8, 10u8];
    let line = name + args_wire(args) + crlf;
    let w = wire_of(c);
    assert(w =~= line + body + crlf);

    // Every byte before the line's final newline is something other than a
    // newline: the keyword's letters, spaces, digits, and the carriage
    // return.
    assert forall|i: int| 0 <= i < line.len() - 1 implies line[i] != 10 by {
        if i < 3 {
        } else {
            let a = args_wire(args);
            if i < 3 + a.len() {
                let j = i - 3;
                assert(a[j] == line[i]);
                assert(a =~= seq![32u8] + d1 + (seq![32u8] + d2) + (seq![32u8] + d3) + (
                seq![32u8] + d4));
            }
        }
    }
    assert(line.last() == 10);
    assert(w[line.len() - 1] == 10);
    assert forall|i: int| 0 <= i < line.len() - 1 implies w[i] != 10 by {
        assert(w[i] == line[i]);
    }
    lemma_find_lf_exact(w, line.len() - 1);
    assert(spec_line_of(w) =~= line);
    assert(spec_rest_of(w) =~= body + crlf);
    assert(spec_rest_of(w).take(body.len() as int) =~= body);
    assert(spec_rest_of(w).skip(body.len() as int) =~= crlf);

    // Tokenize the line: the keyword, then each space-prefixed argument.
    lemma_tokens_of_crlf();
    lemma_tokens_of_spaced_arg(d4, crlf);
    assert(tokens_of(seq![32u8] + d4 + crlf) == seq![d4] + tokens_of(crlf));
    lemma_tokens_of_spaced_arg(d3, seq![32u8] + d4 + crlf);
    lemma_tokens_of_spaced_arg(d2, seq![32u8] + d3 + (seq![32u8] + d4 + crlf));
    lemma_tokens_of_spaced_arg(d1, seq![32u8] + d2 + (seq![32u8] + d3 + (seq![32u8] + d4 + crlf)));
    let tail1 = seq![32u8] + d1 + (seq![32u8] + d2 + (seq![32u8] + d3 + (seq![32u8] + d4 + crlf)));
    assert(forall|i: int| 0 <= i < name.len() ==> !is_ws(#[trigger] name[i]));
    assert(is_ws(tail1[0]));
    lemma_tokens_prepend_token(name, tail1);
    assert(line =~= name + tail1);
    assert(tokens_of(line) =~~= seq![name, d1, d2, d3, d4]);
}

} // verus!
