//! Decimal rendering and parsing.
//!
//! Numeric command arguments go out in decimal with no sign and no leading
//! zeros; numeric response parameters (job ids, counts, body lengths) come
//! back the same way and are parsed from the status line's tokens.

use vstd::prelude::*;
use vstd::arithmetic::div_mod::lemma_fundamental_div_mod;
use vstd::string::{StrSliceExecFns, StringSliceAdditionalSpecFns};

use crate::text::ascii_view;

verus! {

/// The decimal digits of `n`, most significant first, as ASCII bytes.
pub open spec fn dec_rep(n: nat) -> Seq<u8>
    decreases n,
{
    if n < 10 {
        seq![(n + 48) as u8]
    } else {
        dec_rep(n / 10).push(((n % 10) + 48) as u8)
    }
}

/// A decimal digit character.
pub open spec fn is_digit_char(c: char) -> bool {
    '0' <= c && c <= '9'
}

/// A non-empty, all-digit character sequence: the only shape a numeric
/// argument may have.
pub open spec fn digits_chars(s: Seq<char>) -> bool {
    s.len() > 0 && forall|i: int| 0 <= i < s.len() ==> is_digit_char(#[trigger] s[i])
}

/// The value of a digit sequence read in decimal.
pub open spec fn dec_val_chars(s: Seq<char>) -> int
    decreases s.len(),
{
    if s.len() == 0 {
        0
    } else {
        dec_val_chars(s.drop_last()) * 10 + (s.last() as u8) - 48
    }
}

/// The decimal rendering of `n` is non-empty, all digit bytes, and free of a
/// leading zero unless it is the single digit `0`.
pub proof fn lemma_dec_rep_digits(n: nat)
    ensures
        dec_rep(n).len() >= 1,
        forall|i: int| 0 <= i < dec_rep(n).len() ==> 48 <= #[trigger] dec_rep(n)[i] <= 57,
        n > 0 ==> dec_rep(n)[0] != 48,
    decreases n,
{
    if n >= 10 {
        lemma_dec_rep_digits(n / 10);
    }
}

/// Rendering `n` in decimal and reading the digits back in decimal yields
/// `n`: the render/parse round trip is the identity.
pub proof fn lemma_dec_rep_val(n: nat)
    ensures
        digits_chars(ascii_view(dec_rep(n))),
        dec_val_chars(ascii_view(dec_rep(n))) == n,
    decreases n,
{
    lemma_dec_rep_digits(n);
    if n < 10 {
        let v = ascii_view(dec_rep(n));
        let c = ((n + 48) as u8) as char;
        assert(v =~= seq![c]);
        assert(v.drop_last() =~= Seq::<char>::empty());
        lemma_digit_byte_char((n + 48) as u8);
        assert(v[0] == c);
        assert(v.last() == c);
        assert(dec_val_chars(v) == dec_val_chars(v.drop_last()) * 10 + (v.last() as u8) - 48);
        assert(dec_val_chars(v) == n);
        assert(digits_chars(v));
    } else {
        lemma_dec_rep_val(n / 10);
        let prefix = ascii_view(dec_rep(n / 10));
        let d = ((n % 10) + 48) as u8;
        let v = ascii_view(dec_rep(n));
        assert(v =~= prefix.push(d as char));
        assert(v.drop_last() =~= prefix);
        lemma_digit_byte_char(d);
        assert(v.last() == d as char);
        assert(dec_val_chars(v) == dec_val_chars(prefix) * 10 + (v.last() as u8) - 48);
        lemma_fundamental_div_mod(n as int, 10);
        assert(dec_val_chars(v) == n);
        assert(forall|i: int| 0 <= i < v.len() - 1 ==> #[trigger] v[i] == prefix[i]);
        assert(digits_chars(v));
    }
}

/// Render `n` in decimal, most significant digit first.
pub fn render_u64(n: u64) -> (r: Vec<u8>)
    ensures
        r@ == dec_rep(n as nat),
    decreases n,
{
    if n < 10 {
        let mut v: Vec<u8> = Vec::new();
        v.push((n as u8) + 48);
        proof {
            assert(v@ =~= dec_rep(n as nat));
        }
        v
    } else {
        let mut v = render_u64(n / 10);
        v.push(((n % 10) as u8) + 48);
        v
    }
}

/// A digit byte read as a character is a digit character, and reads back as
/// the same byte.
pub proof fn lemma_digit_byte_char(b: u8)
    requires
        48 <= b <= 57,
    ensures
        is_digit_char(b as char),
        (b as char) as u8 == b,
{
    assert((b as char) as u32 == b as u32);
    assert('0' as u32 == 48 && '9' as u32 == 57);
}

/// The value of a digit sequence is never negative.
pub proof fn lemma_dec_val_nonneg(s: Seq<char>)
    requires
        forall|i: int| 0 <= i < s.len() ==> is_digit_char(#[trigger] s[i]),
    ensures
        dec_val_chars(s) >= 0,
    decreases s.len(),
{
    if s.len() > 0 {
        lemma_dec_val_nonneg(s.drop_last());
    }
}

/// Reading more digits never shrinks the value: the value of a prefix is a
/// lower bound for the value of the whole.
pub proof fn lemma_dec_val_prefix(s: Seq<char>, i: int)
    requires
        forall|k: int| 0 <= k < s.len() ==> is_digit_char(#[trigger] s[k]),
        0 <= i <= s.len(),
    ensures
        dec_val_chars(s) >= dec_val_chars(s.take(i)),
    decreases s.len() - i,
{
    if i < s.len() {
        lemma_dec_val_prefix(s, i + 1);
        let t = s.take(i + 1);
        assert(t.drop_last() =~= s.take(i));
        lemma_dec_val_nonneg(s.take(i));
        assert(dec_val_chars(t) == dec_val_chars(s.take(i)) * 10 + (s[i] as u8) - 48);
        assert(dec_val_chars(t) >= dec_val_chars(s.take(i)));
    } else {
        assert(s.take(i) =~= s);
    }
}

/// Parse a non-empty all-digit ASCII string as a decimal value. `None` when
/// the string is empty, holds a non-digit, or the value exceeds `u64::MAX`.
pub fn parse_u64_str(s: &str) -> (r: Option<u64>)
    ensures
        r is Some <==> digits_chars(s@) && dec_val_chars(s@) <= u64::MAX,
        r matches Some(v) ==> v == dec_val_chars(s@),
{
    broadcast use vstd::string::is_ascii_spec_bytes;

    if !s.is_ascii() {
        proof {
            let i = choose|i: int|
                !(0 <= i < s@.len() ==> '\0' <= #[trigger] s@[i] <= '\u{7f}');
            if digits_chars(s@) {
                assert(is_digit_char(s@[i]));
                assert(false);
            }
        }
        return None;
    }
    let n = s.unicode_len();
    if n == 0 {
        return None;
    }
    let mut acc: u64 = 0;
    let mut i: usize = 0;
    while i < n
        invariant
            s.is_ascii(),
            n == s@.len(),
            0 < n,
            0 <= i <= n,
            forall|k: int| 0 <= k < i ==> is_digit_char(#[trigger] s@[k]),
            acc == dec_val_chars(s@.take(i as int)),
        decreases n - i,
    {
        let b = s.get_ascii(i);
        if b < 48 || b > 57 {
            proof {
                assert((s@[i as int] as u8) == b);
                assert(!is_digit_char(s@[i as int])) by {
                    assert('\0' <= s@[i as int] <= '\u{7f}');
                }
            }
            return None;
        }
        let d = b - 48;
        proof {
            assert('\0' <= s@[i as int] <= '\u{7f}');
            assert(is_digit_char(s@[i as int]));
        }
        let limit = (u64::MAX - (d as u64)) / 10;
        if acc > limit {
            proof {
                lemma_fundamental_div_mod((u64::MAX - (d as u64)) as int, 10);
                assert(dec_val_chars(s@.take(i + 1)) > u64::MAX) by {
                    assert(s@.take(i + 1).drop_last() =~= s@.take(i as int));
                }
                if digits_chars(s@) {
                    lemma_dec_val_prefix(s@, i + 1);
                    assert(!(dec_val_chars(s@) <= u64::MAX));
                }
            }
            return None;
        }
        proof {
            lemma_fundamental_div_mod((u64::MAX - (d as u64)) as int, 10);
        }
        acc = acc * 10 + (d as u64);
        i += 1;
        proof {
            assert(s@.take(i as int).drop_last() =~= s@.take(i - 1));
            assert(acc == dec_val_chars(s@.take(i as int)));
        }
    }
    proof {
        assert(s@.take(n as int) =~= s@);
    }
    Some(acc)
}

/// Parse as `parse_u64_str`, further requiring the value to fit in `u32`.
pub fn parse_u32_str(s: &str) -> (r: Option<u32>)
    ensures
        r is Some <==> digits_chars(s@) && dec_val_chars(s@) <= u32::MAX,
        r matches Some(v) ==> v == dec_val_chars(s@),
{
    match parse_u64_str(s) {
        Some(v) => {
            if v <= u32::MAX as u64 {
                Some(v as u32)
            } else {
                None
            }
        },
        None => {
            proof {
                if digits_chars(s@) && dec_val_chars(s@) <= u32::MAX {
                    assert(dec_val_chars(s@) <= u64::MAX);
                }
            }
            None
        },
    }
}

} // verus!
