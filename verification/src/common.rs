//! Decoders for the plain numeric fields, and the digit arithmetic that
//! every numeric field shares.

use crate::decimal::Decimal;
use crate::error::ErrorKind;
use vstd::prelude::*;
use vstd::slice::slice_subrange;

verus! {

/// ASCII `0`.
pub const DIGIT_ZERO: u8 = 0x30;

/// ASCII `9`.
pub const DIGIT_NINE: u8 = 0x39;

/// The largest bound that `parse_digits` accepts: 10^18 - 1.
pub const MAX_DIGITS_LIMIT: u64 = 999_999_999_999_999_999;

/// Whether `b` is an ASCII decimal digit.
pub open spec fn is_digit(b: u8) -> bool {
    DIGIT_ZERO <= b && b <= DIGIT_NINE
}

/// Whether every byte of `s` is an ASCII decimal digit. True of the empty text.
pub open spec fn all_digits(s: Seq<u8>) -> bool {
    forall|i: int| 0 <= i < s.len() ==> is_digit(#[trigger] s[i])
}

/// The number that the digit string `s` denotes in base ten; 0 for the empty
/// text. Meaningful where `all_digits(s)`.
pub open spec fn digits_value(s: Seq<u8>) -> int
    decreases s.len(),
{
    if s.len() == 0 {
        0
    } else {
        10 * digits_value(s.drop_last()) + (s.last() - DIGIT_ZERO)
    }
}

/// The first position at which `b` occurs in `s`, or `s.len()` if it occurs
/// nowhere.
pub open spec fn first_index_of(s: Seq<u8>, b: u8) -> int
    decreases s.len(),
{
    if s.len() == 0 || s[0] == b {
        0
    } else {
        1 + first_index_of(s.drop_first(), b)
    }
}

/// `first_index_of` lies within the text, no earlier position holds `b`, and
/// the position itself does unless it is the end.
pub proof fn lemma_first_index_of(s: Seq<u8>, b: u8)
    ensures
        0 <= first_index_of(s, b) <= s.len(),
        forall|i: int| 0 <= i < first_index_of(s, b) ==> s[i] != b,
        first_index_of(s, b) < s.len() ==> s[first_index_of(s, b)] == b,
    decreases s.len(),
{
    if s.len() == 0 || s[0] == b {
    } else {
        let t = s.drop_first();
        lemma_first_index_of(t, b);
        assert forall|i: int| 0 <= i < first_index_of(s, b) implies s[i] != b by {
            if i > 0 {
                assert(t[i - 1] == s[i]);
            }
        }
        assert(t[first_index_of(t, b)] == s[first_index_of(t, b) + 1] || first_index_of(t, b)
            >= t.len());
    }
}

/// A position that holds `b` and has no `b` before it is `first_index_of`;
/// so is the end of a text that holds no `b`.
pub proof fn lemma_first_index_of_unique(s: Seq<u8>, b: u8, p: int)
    requires
        0 <= p <= s.len(),
        forall|i: int| 0 <= i < p ==> s[i] != b,
        p < s.len() ==> s[p] == b,
    ensures
        first_index_of(s, b) == p,
{
    lemma_first_index_of(s, b);
    let q = first_index_of(s, b);
    if q < p {
        assert(s[q] == b);
    }
}

/// Appending one digit multiplies the value by ten and adds the digit.
pub proof fn lemma_digits_value_step(s: Seq<u8>, i: int)
    requires
        0 <= i < s.len(),
    ensures
        digits_value(s.take(i + 1)) == 10 * digits_value(s.take(i)) + (s[i] - DIGIT_ZERO),
{
    assert(s.take(i + 1).drop_last() =~= s.take(i));
}

/// The value of a digit string is at least that of each of its prefixes, and
/// is never negative.
pub proof fn lemma_digits_value_prefix(s: Seq<u8>, i: int)
    requires
        all_digits(s),
        0 <= i <= s.len(),
    ensures
        0 <= digits_value(s.take(i)) <= digits_value(s),
    decreases s.len() - i,
{
    if i == s.len() {
        assert(s.take(i) =~= s);
        lemma_digits_value_nonnegative(s);
    } else {
        lemma_digits_value_prefix(s, i + 1);
        lemma_digits_value_step(s, i);
        assert(is_digit(s[i]));
        lemma_digits_value_nonnegative(s.take(i));
    }
}

/// The value of a digit string is never negative.
pub proof fn lemma_digits_value_nonnegative(s: Seq<u8>)
    requires
        all_digits(s),
    ensures
        0 <= digits_value(s),
    decreases s.len(),
{
    if s.len() > 0 {
        lemma_digits_value_nonnegative(s.drop_last());
        assert(is_digit(s.last()));
    }
}

/// The first position from `start` on at which `b` occurs in `s`, or the
/// length of `s` if there is none.
pub fn find_from(s: &[u8], start: usize, b: u8) -> (r: usize)
    requires
        start <= s@.len(),
    ensures
        start <= r <= s@.len(),
        r == start + first_index_of(s@.skip(start as int), b),
{
    let n: usize = s.len();
    let mut i: usize = start;
    while i < n && s[i] != b
        invariant
            n == s@.len(),
            start <= i <= n,
            forall|k: int| start <= k < i ==> s@[k] != b,
        decreases n - i,
    {
        i = i + 1;
    }
    proof {
        let t = s@.skip(start as int);
        assert forall|k: int| 0 <= k < i - start implies t[k] != b by {
            assert(t[k] == s@[k + start]);
        }
        lemma_first_index_of_unique(t, b, i - start);
    }
    i
}


/// Reads `s` as an unsigned decimal number not above `limit`.
///
/// Returns the number if every byte is a digit and the value fits, and
/// nothing otherwise. The empty text reads as 0.
pub fn parse_digits(s: &[u8], limit: u64) -> (r: Option<u64>)
    requires
        limit <= MAX_DIGITS_LIMIT,
    ensures
        r is Some <==> all_digits(s@) && digits_value(s@) <= limit,
        r matches Some(v) ==> v == digits_value(s@),
{
    let n: usize = s.len();
    let mut acc: u64 = 0;
    let mut i: usize = 0;
    while i < n
        invariant
            n == s@.len(),
            0 <= i <= n,
            limit <= MAX_DIGITS_LIMIT,
            all_digits(s@.take(i as int)),
            acc == digits_value(s@.take(i as int)),
            acc <= limit,
        decreases n - i,
    {
        let b: u8 = s[i];
        if b < DIGIT_ZERO || b > DIGIT_NINE {
            assert(!is_digit(s@[i as int]));
            return None;
        }
        let next: u64 = acc * 10 + (b - DIGIT_ZERO) as u64;
        proof {
            lemma_digits_value_step(s@, i as int);
            assert forall|k: int| 0 <= k < i + 1 implies is_digit(#[trigger] s@.take(i + 1)[k]) by {
                if k < i {
                    assert(s@.take(i as int)[k] == s@[k]);
                }
            }
        }
        if next > limit {
            proof {
                if all_digits(s@) {
                    lemma_digits_value_prefix(s@, i + 1);
                }
            }
            return None;
        }
        acc = next;
        i = i + 1;
    }
    proof {
        assert(s@.take(n as int) =~= s@);
    }
    Some(acc)
}

/// The number written by the two digits of `s` at `at` and `at + 1`, or
/// nothing if one of the two bytes is no digit.
pub fn two_digits(s: &[u8], at: usize) -> (r: Option<u8>)
    requires
        at + 2 <= s@.len(),
    ensures
        r is Some <==> all_digits(s@.subrange(at as int, at + 2)),
        r matches Some(v) ==> v == digits_value(s@.subrange(at as int, at + 2)) && v <= 99,
{
    let n: usize = s.len();
    assert(at + 2 <= n);
    let pair = slice_subrange(s, at, at + 2);
    proof {
        reveal_with_fuel(digits_value, 3);
        if all_digits(pair@) {
            assert(is_digit(pair@[0]) && is_digit(pair@[1]));
            assert(pair@.drop_last().drop_last().len() == 0);
            assert(pair@.drop_last().last() == pair@[0]);
        }
    }
    match parse_digits(pair, 99) {
        Some(v) => Some(v as u8),
        None => None,
    }
}


/// What `parse_u8` returns for a token, absent or given as its bytes.
pub open spec fn spec_parse_u8(input: Option<Seq<u8>>) -> Result<Option<u8>, ErrorKind> {
    match input {
        None => Ok(None),
        Some(s) => if s.len() == 0 {
            Ok(None)
        } else if all_digits(s) && digits_value(s) <= u8::MAX {
            Ok(Some(digits_value(s) as u8))
        } else {
            Err(ErrorKind::FieldFormatError)
        },
    }
}

/// What `parse_u16` returns for a token, absent or given as its bytes.
pub open spec fn spec_parse_u16(input: Option<Seq<u8>>) -> Result<Option<u16>, ErrorKind> {
    match input {
        None => Ok(None),
        Some(s) => if s.len() == 0 {
            Ok(None)
        } else if all_digits(s) && digits_value(s) <= u16::MAX {
            Ok(Some(digits_value(s) as u16))
        } else {
            Err(ErrorKind::FieldFormatError)
        },
    }
}

/// The bytes of a token that may be absent, as a contract sees them.
pub open spec fn token_view(input: Option<&[u8]>) -> Option<Seq<u8>> {
    match input {
        None => None,
        Some(s) => Some(s@),
    }
}

/// Decodes an optional 8-bit unsigned field.
///
/// A missing or empty token is no value; a token of digits whose value fits
/// in eight bits is that value; anything else is a format error.
pub fn parse_u8(input: Option<&[u8]>) -> (r: Result<Option<u8>, ErrorKind>)
    ensures
        r == spec_parse_u8(token_view(input)),
{
    match input {
        None => Ok(None),
        Some(s) => {
            if s.len() == 0 {
                return Ok(None);
            }
            match parse_digits(s, 255) {
                Some(v) => Ok(Some(v as u8)),
                None => Err(ErrorKind::FieldFormatError),
            }
        },
    }
}

/// Decodes an optional 16-bit unsigned field, by the rule of `parse_u8`.
pub fn parse_u16(input: Option<&[u8]>) -> (r: Result<Option<u16>, ErrorKind>)
    ensures
        r == spec_parse_u16(token_view(input)),
{
    match input {
        None => Ok(None),
        Some(s) => {
            if s.len() == 0 {
                return Ok(None);
            }
            match parse_digits(s, 65535) {
                Some(v) => Ok(Some(v as u16)),
                None => Err(ErrorKind::FieldFormatError),
            }
        },
    }
}

/// What a field that holds one decimal number reads as: nothing if the
/// token is missing or empty, the number if the token is a decimal, and a
/// format error otherwise.
pub open spec fn spec_parse_number(input: Option<Seq<u8>>) -> Result<Option<Decimal>, ErrorKind> {
    match input {
        None => Ok(None),
        Some(s) => if s.len() == 0 {
            Ok(None)
        } else {
            match Decimal::spec_parse(s) {
                Some(d) => Ok(Some(d)),
                None => Err(ErrorKind::FieldFormatError),
            }
        },
    }
}

/// Decodes a field that holds one decimal number, as `spec_parse_number`
/// says.
pub fn parse_decimal(input: Option<&[u8]>) -> (r: Result<Option<Decimal>, ErrorKind>)
    ensures
        r == spec_parse_number(token_view(input)),
        r matches Ok(Some(d)) ==> d.is_compact(),
{
    match input {
        None => Ok(None),
        Some(s) => {
            if s.len() == 0 {
                return Ok(None);
            }
            match Decimal::parse(s) {
                Some(d) => Ok(Some(d)),
                None => Err(ErrorKind::FieldFormatError),
            }
        },
    }
}

} // verus!
