//! Decoding of untrusted decimal text into fixed-width unsigned integers.
//!
//! Amount and timestamp fields arrive as decimal strings. Decoding is
//! deliberately lenient: malformed text (empty, non-digit content, or a value
//! too large for the target width) is not rejected but decodes to `0`. Callers
//! that must distinguish the cases use the `Option`-returning decoders.

use vstd::arithmetic::div_mod::lemma_fundamental_div_mod;
use vstd::prelude::*;

verus! {

/// A decimal digit `'0'..='9'`.
pub open spec fn is_dec_digit(c: char) -> bool {
    48 <= c as int && c as int <= 57
}

/// The numeric value of a decimal digit.
pub open spec fn digit_val(c: char) -> int {
    c as int - 48
}

pub open spec fn all_dec_digits(s: Seq<char>) -> bool {
    forall|i: int| 0 <= i < s.len() ==> is_dec_digit(#[trigger] s[i])
}

/// The value of a digit string, most significant digit first.
pub open spec fn dec_val(s: Seq<char>) -> int
    decreases s.len(),
{
    if s.len() == 0 {
        0
    } else {
        dec_val(s.drop_last()) * 10 + digit_val(s.last())
    }
}

/// The digit part of a numeral: everything after an optional leading `'+'`.
pub open spec fn digits_part(s: Seq<char>) -> Seq<char> {
    if s.len() > 0 && s[0] == '+' {
        s.subrange(1, s.len() as int)
    } else {
        s
    }
}

/// A well-formed unsigned decimal numeral: an optional leading `'+'`, then at
/// least one decimal digit and nothing else.
pub open spec fn is_dec_numeral(s: Seq<char>) -> bool {
    digits_part(s).len() > 0 && all_dec_digits(digits_part(s))
}

/// The mathematical value of a numeral (meaningful when `is_dec_numeral(s)`).
pub open spec fn dec_numeral_val(s: Seq<char>) -> int {
    dec_val(digits_part(s))
}

/// The lenient decoding of an amount: the value of the numeral when it is
/// well formed and fits in `u128`, and `0` otherwise.
pub open spec fn u128_or_zero(s: Seq<char>) -> int {
    if is_dec_numeral(s) && dec_numeral_val(s) <= u128::MAX as int {
        dec_numeral_val(s)
    } else {
        0
    }
}

/// The lenient decoding of a timestamp: as `u128_or_zero`, for `u64`.
pub open spec fn u64_or_zero(s: Seq<char>) -> int {
    if is_dec_numeral(s) && dec_numeral_val(s) <= u64::MAX as int {
        dec_numeral_val(s)
    } else {
        0
    }
}

proof fn lemma_all_dec_digits_drop_last(s: Seq<char>)
    requires
        all_dec_digits(s),
        s.len() > 0,
    ensures
        all_dec_digits(s.drop_last()),
{
    assert forall|i: int| 0 <= i < s.drop_last().len() implies is_dec_digit(
        #[trigger] s.drop_last()[i],
    ) by {
        assert(s.drop_last()[i] == s[i]);
    }
}

proof fn lemma_dec_val_nonneg(s: Seq<char>)
    requires
        all_dec_digits(s),
    ensures
        dec_val(s) >= 0,
    decreases s.len(),
{
    if s.len() > 0 {
        lemma_all_dec_digits_drop_last(s);
        lemma_dec_val_nonneg(s.drop_last());
        assert(is_dec_digit(s[s.len() - 1]));
    }
}

/// A digit string is worth at least any of its prefixes.
proof fn lemma_dec_val_prefix(s: Seq<char>, j: int)
    requires
        all_dec_digits(s),
        0 <= j <= s.len(),
    ensures
        dec_val(s.take(j)) <= dec_val(s),
    decreases s.len(),
{
    if j == s.len() {
        assert(s.take(j) =~= s);
    } else {
        let d = s.drop_last();
        lemma_all_dec_digits_drop_last(s);
        assert(s.take(j) =~= d.take(j));
        lemma_dec_val_prefix(d, j);
        lemma_dec_val_nonneg(d);
        assert(is_dec_digit(s[s.len() - 1]));
    }
}

/// The lenient decodings always land in the range of their target type.
pub proof fn lemma_or_zero_in_range(s: Seq<char>)
    ensures
        0 <= u128_or_zero(s) <= u128::MAX as int,
        0 <= u64_or_zero(s) <= u64::MAX as int,
{
    if is_dec_numeral(s) {
        lemma_dec_val_nonneg(digits_part(s));
    }
}

/// Decode an unsigned decimal numeral, reporting failure: `None` exactly when
/// the text is not a well-formed numeral or its value does not fit in `u128`.
pub fn parse_u128_dec(s: &str) -> (r: Option<u128>)
    ensures
        is_dec_numeral(s@) && dec_numeral_val(s@) <= u128::MAX as int ==> r == Some(
            dec_numeral_val(s@) as u128,
        ),
        !(is_dec_numeral(s@) && dec_numeral_val(s@) <= u128::MAX as int) ==> r is None,
{
    let n = s.unicode_len();
    if n == 0 {
        return None;
    }
    let start: usize = if s.get_char(0) == '+' {
        1
    } else {
        0
    };
    let ghost digits = s@.subrange(start as int, n as int);
    proof {
        assert(digits_part(s@) =~= digits);
    }
    if start == n {
        // A bare sign has no digits.
        return None;
    }
    let mut acc: u128 = 0;
    let mut i: usize = start;
    while i < n
        invariant
            start <= i <= n,
            n == s@.len(),
            start < n,
            digits == s@.subrange(start as int, n as int),
            digits == digits_part(s@),
            all_dec_digits(s@.subrange(start as int, i as int)),
            acc as int == dec_val(s@.subrange(start as int, i as int)),
        decreases n - i,
    {
        let ghost pre = s@.subrange(start as int, i as int);
        let ghost cur = s@.subrange(start as int, i as int + 1);
        let c = s.get_char(i);
        let v = c as u32;
        if v < 48 || v > 57 {
            proof {
                assert(digits[i - start] == s@[i as int]);
                assert(!is_dec_digit(digits[i - start]));
            }
            return None;
        }
        let d = ((v - 48) as u128);
        proof {
            assert(cur.drop_last() =~= pre);
            assert(cur.last() == s@[i as int]);
            assert(dec_val(cur) == acc as int * 10 + d as int);
            assert forall|k: int| 0 <= k < cur.len() implies is_dec_digit(#[trigger] cur[k]) by {
                if k < pre.len() {
                    assert(cur[k] == pre[k]);
                } else {
                    assert(cur[k] == s@[i as int]);
                }
            }
            lemma_fundamental_div_mod(u128::MAX as int, 10);
        }
        if acc > u128::MAX / 10 || (acc == u128::MAX / 10 && d > u128::MAX % 10) {
            proof {
                assert(dec_val(cur) > u128::MAX as int);
                if all_dec_digits(digits) {
                    assert(cur =~= digits.take(i + 1 - start as int));
                    lemma_dec_val_prefix(digits, i + 1 - start as int);
                }
            }
            return None;
        }
        acc = acc * 10 + d;
        i += 1;
        proof {
            assert(s@.subrange(start as int, i as int) == cur);
        }
    }
    proof {
        assert(s@.subrange(start as int, i as int) == digits);
        assert(is_dec_numeral(s@));
    }
    Some(acc)
}

/// Decode an unsigned decimal numeral into `u64`, reporting failure as
/// `parse_u128_dec` does, for the `u64` range.
pub fn parse_u64_dec(s: &str) -> (r: Option<u64>)
    ensures
        is_dec_numeral(s@) && dec_numeral_val(s@) <= u64::MAX as int ==> r == Some(
            dec_numeral_val(s@) as u64,
        ),
        !(is_dec_numeral(s@) && dec_numeral_val(s@) <= u64::MAX as int) ==> r is None,
{
    proof {
        if is_dec_numeral(s@) {
            lemma_dec_val_nonneg(digits_part(s@));
        }
    }
    match parse_u128_dec(s) {
        Some(v) => {
            if v <= u64::MAX as u128 {
                Some(v as u64)
            } else {
                None
            }
        },
        None => None,
    }
}

/// Decode an amount under the lenient policy: malformed or oversized text
/// becomes `0` instead of an error.
pub fn parse_u128_or_zero(s: &str) -> (r: u128)
    ensures
        r as int == u128_or_zero(s@),
{
    proof {
        if is_dec_numeral(s@) {
            lemma_dec_val_nonneg(digits_part(s@));
        }
    }
    match parse_u128_dec(s) {
        Some(v) => v,
        None => 0,
    }
}

/// Decode a timestamp under the lenient policy: malformed or oversized text
/// becomes `0` instead of an error.
pub fn parse_u64_or_zero(s: &str) -> (r: u64)
    ensures
        r as int == u64_or_zero(s@),
{
    proof {
        if is_dec_numeral(s@) {
            lemma_dec_val_nonneg(digits_part(s@));
        }
    }
    match parse_u64_dec(s) {
        Some(v) => v,
        None => 0,
    }
}

} // verus!
