//! Byte-level scanning: whitespace tokenization of status lines, splitting
//! statistics and listing bodies into lines, trimming, and locating the
//! key/value separator of a statistics line.

use vstd::prelude::*;

verus! {

/// The whitespace bytes of the wire protocol's text: space, tab, and the two
/// line-delimiter bytes.
pub open spec fn is_ws(b: u8) -> bool {
    b == 32 || b == 9 || b == 13 || b == 10
}

/// Whitespace test on one byte.
pub fn is_ws_byte(b: u8) -> (r: bool)
    ensures
        r == is_ws(b),
{
    b == 32 || b == 9 || b == 13 || b == 10
}

/// The maximal runs of non-whitespace bytes of `s`, in order: the tokens of
/// a status line.
pub open spec fn tokens_of(s: Seq<u8>) -> Seq<Seq<u8>>
    decreases s.len(),
{
    if s.len() == 0 {
        Seq::empty()
    } else if is_ws(s[0]) {
        tokens_of(s.drop_first())
    } else {
        let rest = tokens_of(s.drop_first());
        if 1 < s.len() && !is_ws(s[1]) {
            seq![seq![s[0]] + rest[0]] + rest.drop_first()
        } else {
            seq![seq![s[0]]] + rest
        }
    }
}

/// Splitting off a leading whole token: a run of non-whitespace bytes
/// followed by whitespace (or the end) is the first token, and the rest
/// tokenizes on its own.
pub proof fn lemma_tokens_prepend_token(tok: Seq<u8>, rest: Seq<u8>)
    requires
        tok.len() > 0,
        forall|i: int| 0 <= i < tok.len() ==> !is_ws(#[trigger] tok[i]),
        rest.len() == 0 || is_ws(rest[0]),
    ensures
        tokens_of(tok + rest) == seq![tok] + tokens_of(rest),
    decreases tok.len(),
{
    let s = tok + rest;
    assert(s[0] == tok[0]);
    if tok.len() == 1 {
        assert(s.drop_first() =~= rest);
        if 1 < s.len() {
            assert(s[1] == rest[0]);
        }
        assert(seq![s[0]] =~= tok);
        assert(tokens_of(s) =~~= seq![tok] + tokens_of(rest));
    } else {
        assert(s[1] == tok[1]);
        assert(!is_ws(tok[1]));
        lemma_tokens_prepend_token(tok.drop_first(), rest);
        assert(s.drop_first() =~= tok.drop_first() + rest);
        let rt = tokens_of(s.drop_first());
        assert(rt == seq![tok.drop_first()] + tokens_of(rest));
        assert(rt[0] == tok.drop_first());
        assert(rt.drop_first() =~= tokens_of(rest));
        assert(seq![s[0]] + rt[0] =~= tok);
        assert(tokens_of(s) =~~= seq![tok] + tokens_of(rest));
    }
}

/// Tokenize a status line on whitespace, preserving token order.
pub fn tokenize(line: &[u8]) -> (toks: Vec<Vec<u8>>)
    ensures
        toks.deep_view() == tokens_of(line@),
{
    let n = line.len();
    let mut toks: Vec<Vec<u8>> = Vec::new();
    let mut i: usize = 0;
    proof {
        assert(toks.deep_view() =~~= Seq::<Seq<u8>>::empty());
        assert(line@.skip(0) =~= line@);
    }
    while i < n
        invariant
            n == line@.len(),
            0 <= i <= n,
            tokens_of(line@) == toks.deep_view() + tokens_of(line@.skip(i as int)),
        decreases n - i,
    {
        if is_ws_byte(line[i]) {
            proof {
                assert(line@.skip(i as int).drop_first() =~= line@.skip(i + 1));
            }
            i += 1;
        } else {
            let start = i;
            let mut j = i;
            while j < n && !is_ws_byte(line[j])
                invariant
                    n == line@.len(),
                    start <= j <= n,
                    forall|k: int| start <= k < j ==> !is_ws(#[trigger] line@[k]),
                decreases n - j,
            {
                j += 1;
            }
            let mut sub: Vec<u8> = Vec::new();
            let mut k = start;
            while k < j
                invariant
                    n == line@.len(),
                    start <= k <= j <= n,
                    sub@ == line@.subrange(start as int, k as int),
                decreases j - k,
            {
                sub.push(line[k]);
                proof {
                    assert(sub@ =~= line@.subrange(start as int, k + 1));
                }
                k += 1;
            }
            let ghost old_toks = toks.deep_view();
            toks.push(sub);
            proof {
                let tokg = line@.subrange(start as int, j as int);
                let restg = line@.skip(j as int);
                assert(forall|t: int| 0 <= t < tokg.len() ==> !is_ws(#[trigger] tokg[t]));
                if restg.len() > 0 {
                    assert(restg[0] == line@[j as int]);
                }
                lemma_tokens_prepend_token(tokg, restg);
                assert(line@.skip(start as int) =~= tokg + restg);
                assert(toks.deep_view() =~~= old_toks.push(tokg));
                assert(toks.deep_view() + tokens_of(restg) =~~= (old_toks
                    + tokens_of(line@.skip(start as int))));
            }
            i = j;
        }
    }
    proof {
        assert(line@.skip(n as int) =~= Seq::<u8>::empty());
        assert(toks.deep_view() =~~= tokens_of(line@));
    }
    toks
}

/// Put a prefix onto the first piece of a non-empty split.
pub open spec fn prepend_first(p: Seq<u8>, ss: Seq<Seq<u8>>) -> Seq<Seq<u8>> {
    seq![p + ss[0]] + ss.drop_first()
}

/// The pieces of `s` between newline bytes, in order, the newlines removed.
/// An empty buffer has one empty piece, and every newline adds a piece, so
/// the split is never empty.
pub open spec fn split_lines(s: Seq<u8>) -> Seq<Seq<u8>>
    decreases s.len(),
{
    if s.len() == 0 {
        seq![Seq::<u8>::empty()]
    } else if s[0] == 10 {
        seq![Seq::<u8>::empty()] + split_lines(s.drop_first())
    } else {
        prepend_first(seq![s[0]], split_lines(s.drop_first()))
    }
}

/// A split always has at least one piece.
pub proof fn lemma_split_lines_nonempty(s: Seq<u8>)
    ensures
        split_lines(s).len() >= 1,
    decreases s.len(),
{
    if s.len() > 0 {
        lemma_split_lines_nonempty(s.drop_first());
    }
}

/// Split a body at newline bytes, keeping empty pieces.
pub fn split_lines_vec(body: &[u8]) -> (lines: Vec<Vec<u8>>)
    ensures
        lines.deep_view() == split_lines(body@),
{
    let n = body.len();
    let mut lines: Vec<Vec<u8>> = Vec::new();
    let mut cur: Vec<u8> = Vec::new();
    let mut i: usize = 0;
    proof {
        lemma_split_lines_nonempty(body@);
        assert(body@.skip(0) =~= body@);
        assert(lines.deep_view() =~~= Seq::<Seq<u8>>::empty());
        assert(prepend_first(cur@, split_lines(body@)) =~~= split_lines(body@));
    }
    while i < n
        invariant
            n == body@.len(),
            0 <= i <= n,
            split_lines(body@.skip(i as int)).len() >= 1,
            split_lines(body@) == lines.deep_view() + prepend_first(
                cur@,
                split_lines(body@.skip(i as int)),
            ),
        decreases n - i,
    {
        let ghost tail = split_lines(body@.skip(i + 1));
        proof {
            lemma_split_lines_nonempty(body@.skip(i + 1));
            assert(body@.skip(i as int).drop_first() =~= body@.skip(i + 1));
            assert(body@.skip(i as int)[0] == body@[i as int]);
        }
        if body[i] == 10 {
            let ghost old_lines = lines.deep_view();
            let done = cur;
            cur = Vec::new();
            lines.push(done);
            proof {
                assert(prepend_first(done@, seq![Seq::<u8>::empty()] + tail) =~~= (seq![done@]
                    + tail));
                assert(lines.deep_view() =~~= old_lines.push(done@));
                assert(lines.deep_view() + prepend_first(cur@, tail) =~~= (old_lines + (seq![done@]
                    + tail)));
            }
        } else {
            let ghost old_cur = cur@;
            cur.push(body[i]);
            proof {
                let b = body@[i as int];
                assert(prepend_first(old_cur, prepend_first(seq![b], tail)) =~~= prepend_first(
                    old_cur.push(b),
                    tail,
                ));
                assert(cur@ =~= old_cur.push(b));
            }
        }
        i += 1;
    }
    proof {
        assert(body@.skip(n as int) =~= Seq::<u8>::empty());
    }
    let ghost old_lines = lines.deep_view();
    let ghost last = cur@;
    lines.push(cur);
    proof {
        assert(prepend_first(last, seq![Seq::<u8>::empty()]) =~~= seq![last]);
        assert(lines.deep_view() =~~= old_lines.push(last));
        assert(lines.deep_view() =~~= split_lines(body@));
    }
    lines
}

/// `s` without its leading whitespace.
pub open spec fn trim_start_sp(s: Seq<u8>) -> Seq<u8>
    decreases s.len(),
{
    if s.len() > 0 && is_ws(s[0]) {
        trim_start_sp(s.drop_first())
    } else {
        s
    }
}

/// `s` without its trailing whitespace.
pub open spec fn trim_end_sp(s: Seq<u8>) -> Seq<u8>
    decreases s.len(),
{
    if s.len() > 0 && is_ws(s.last()) {
        trim_end_sp(s.drop_last())
    } else {
        s
    }
}

/// `s` without leading and trailing whitespace.
pub open spec fn trimmed(s: Seq<u8>) -> Seq<u8> {
    trim_end_sp(trim_start_sp(s))
}

/// Copy `b` without its leading and trailing whitespace.
pub fn trim_bytes(b: &[u8]) -> (r: Vec<u8>)
    ensures
        r@ == trimmed(b@),
{
    let n = b.len();
    let mut a: usize = 0;
    proof {
        assert(b@.skip(0) =~= b@);
    }
    while a < n && is_ws_byte(b[a])
        invariant
            n == b@.len(),
            0 <= a <= n,
            trim_start_sp(b@) == trim_start_sp(b@.skip(a as int)),
        decreases n - a,
    {
        proof {
            assert(b@.skip(a as int)[0] == b@[a as int]);
            assert(b@.skip(a as int).drop_first() =~= b@.skip(a + 1));
        }
        a += 1;
    }
    proof {
        if a < n {
            assert(b@.skip(a as int)[0] == b@[a as int]);
        } else {
            assert(b@.skip(a as int) =~= Seq::<u8>::empty());
        }
        assert(trim_start_sp(b@) == b@.skip(a as int));
    }
    let ghost t = b@.skip(a as int);
    let mut e = n;
    proof {
        assert(t.take(n - a) =~= t);
    }
    while e > a && is_ws_byte(b[e - 1])
        invariant
            n == b@.len(),
            a <= e <= n,
            t == b@.skip(a as int),
            trim_end_sp(t) == trim_end_sp(t.take(e - a)),
        decreases e,
    {
        proof {
            let piece = t.take(e - a);
            assert(piece.last() == b@[e - 1]);
            assert(piece.drop_last() =~= t.take(e - 1 - a));
        }
        e -= 1;
    }
    proof {
        let piece = t.take(e - a);
        if e > a {
            assert(piece.last() == b@[e - 1]);
            assert(!is_ws(piece.last()));
        }
        assert(trim_end_sp(t) == t.take(e - a));
    }
    let mut r: Vec<u8> = Vec::new();
    let mut k = a;
    while k < e
        invariant
            n == b@.len(),
            a <= k <= e <= n,
            r@ == b@.subrange(a as int, k as int),
        decreases e - k,
    {
        r.push(b[k]);
        proof {
            assert(r@ =~= b@.subrange(a as int, k + 1));
        }
        k += 1;
    }
    proof {
        assert(b@.subrange(a as int, e as int) =~= b@.skip(a as int).take(e - a));
    }
    r
}

/// The position of the first newline byte of `s`, if there is one.
pub open spec fn find_lf(s: Seq<u8>) -> Option<int>
    decreases s.len(),
{
    if s.len() == 0 {
        None
    } else if s[0] == 10 {
        Some(0int)
    } else {
        match find_lf(s.drop_first()) {
            None => None,
            Some(j) => Some(j + 1),
        }
    }
}

/// The first newline is exactly the position before which none occurs.
pub proof fn lemma_find_lf_exact(s: Seq<u8>, k: int)
    requires
        0 <= k < s.len(),
        s[k] == 10,
        forall|i: int| 0 <= i < k ==> s[i] != 10,
    ensures
        find_lf(s) == Some(k),
    decreases k,
{
    if k > 0 {
        let d = s.drop_first();
        assert(forall|i: int| 0 <= i < d.len() ==> #[trigger] d[i] == s[i + 1]);
        lemma_find_lf_exact(d, k - 1);
    }
}

/// Scanning from an offset free of newlines finds the same newline.
proof fn lemma_find_lf_shift(s: Seq<u8>, j: int)
    requires
        0 <= j <= s.len(),
        forall|k: int| 0 <= k < j ==> s[k] != 10,
    ensures
        find_lf(s) == (match find_lf(s.skip(j)) {
            None => None::<int>,
            Some(k) => Some(k + j),
        }),
    decreases j,
{
    if j == 0 {
        assert(s.skip(0) =~= s);
    } else {
        assert(s[0] != 10);
        let d = s.drop_first();
        assert(forall|k: int| 0 <= k < j - 1 ==> #[trigger] d[k] == s[k + 1]);
        lemma_find_lf_shift(d, j - 1);
        assert(d.skip(j - 1) =~= s.skip(j));
    }
}

/// Find the first newline byte, if any.
pub fn find_lf_at(b: &[u8]) -> (r: Option<usize>)
    ensures
        r matches Some(j) ==> find_lf(b@) == Some(j as int) && j < b@.len(),
        r is None ==> find_lf(b@) is None,
{
    let n = b.len();
    let mut j: usize = 0;
    while j < n
        invariant
            n == b@.len(),
            0 <= j <= n,
            forall|k: int| 0 <= k < j ==> b@[k] != 10,
        decreases n - j,
    {
        if b[j] == 10 {
            proof {
                lemma_find_lf_shift(b@, j as int);
                assert(b@.skip(j as int)[0] == b@[j as int]);
            }
            return Some(j);
        }
        j += 1;
    }
    proof {
        lemma_find_lf_shift(b@, j as int);
        assert(b@.skip(j as int).len() == 0);
    }
    None
}

/// The position of the first `": "` (colon, space) pair of a statistics
/// line, counted from the front, if there is one.
pub open spec fn find_kv_sep(s: Seq<u8>) -> Option<int>
    decreases s.len(),
{
    if s.len() < 2 {
        None
    } else if s[0] == 58 && s[1] == 32 {
        Some(0int)
    } else {
        match find_kv_sep(s.drop_first()) {
            None => None,
            Some(j) => Some(j + 1),
        }
    }
}

/// Scanning from an offset free of separator pairs finds the same separator.
proof fn lemma_find_kv_shift(s: Seq<u8>, j: int)
    requires
        0 <= j <= s.len(),
        forall|k: int| 0 <= k < j && k + 1 < s.len() ==> !(#[trigger] s[k] == 58 && s[k + 1] == 32),
        j + 1 <= s.len() || j == s.len(),
    ensures
        find_kv_sep(s) == (match find_kv_sep(s.skip(j)) {
            None => None::<int>,
            Some(k) => Some(k + j),
        }),
    decreases j,
{
    if j == 0 {
        assert(s.skip(0) =~= s);
    } else {
        if s.len() < 2 {
            if s.len() == 1 && j == 1 {
                assert(s.skip(j).len() == 0);
            } else {
                assert(j == s.len());
                assert(s.skip(j).len() == 0);
            }
        } else {
            assert(!(s[0] == 58 && s[1] == 32));
            let d = s.drop_first();
            assert(forall|k: int|
                0 <= k < j - 1 && k + 1 < d.len() ==> !(#[trigger] d[k] == 58 && d[k + 1] == 32))
                by {
                assert(forall|k: int|
                    0 <= k < j - 1 && k + 1 < d.len() ==> #[trigger] d[k] == s[k + 1] && d[k + 1]
                        == s[k + 2]);
            }
            lemma_find_kv_shift(d, j - 1);
            assert(d.skip(j - 1) =~= s.skip(j));
        }
    }
}

/// Find the first `": "` separator of a line, if any.
pub fn find_kv_sep_at(line: &[u8]) -> (r: Option<usize>)
    ensures
        r matches Some(j) ==> find_kv_sep(line@) == Some(j as int),
        r is None ==> find_kv_sep(line@) is None,
{
    let n = line.len();
    if n < 2 {
        return None;
    }
    let mut j: usize = 0;
    while j + 1 < n
        invariant
            n == line@.len(),
            2 <= n,
            0 <= j <= n - 1,
            forall|k: int|
                0 <= k < j && k + 1 < n ==> !(#[trigger] line@[k] == 58 && line@[k + 1] == 32),
        decreases n - j,
    {
        if line[j] == 58 && line[j + 1] == 32 {
            proof {
                lemma_find_kv_shift(line@, j as int);
                assert(line@.skip(j as int)[0] == line@[j as int]);
                assert(line@.skip(j as int)[1] == line@[j + 1]);
            }
            return Some(j);
        }
        j += 1;
    }
    proof {
        lemma_find_kv_shift(line@, j as int);
        assert(line@.skip(j as int).len() < 2);
    }
    None
}

} // verus!
