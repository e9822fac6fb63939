//! Typed tokens: what it means for one token to parse as a value, and the
//! verified decimal parser behind the numeric instances.

use vstd::prelude::*;

verus! {

/// A type whose values can be read from one token of text: the primitive
/// integer types up to 64 bits, `char`, and `String`.
///
/// `spec_parse` fixes, at the level of views, which tokens denote a value
/// and which value they denote; `parse_token` realises exactly that.
pub trait TokenValue: View + Sized {
    /// The value the token `t` denotes, if it parses as `Self`.
    spec fn spec_parse(t: Seq<char>) -> Option<<Self as View>::V>;

    /// Parses one token, returning its value or absence.
    fn parse_token(t: &str) -> (r: Option<Self>)
        ensures
            (r is Some) <==> (Self::spec_parse(t@) is Some),
            r matches Some(v) ==> Self::spec_parse(t@) == Some(v@),
    ;
}

pub open spec fn is_digit(c: char) -> bool {
    '0' <= c && c <= '9'
}

pub open spec fn digit_val(c: char) -> int {
    c as int - '0' as int
}

pub open spec fn all_digits(s: Seq<char>) -> bool {
    forall|j: int| 0 <= j < s.len() ==> is_digit(#[trigger] s[j])
}

/// The number a digit string denotes in base ten.
pub open spec fn digits_val(s: Seq<char>) -> int
    decreases s.len(),
{
    if s.len() == 0 {
        0
    } else {
        digits_val(s.take(s.len() - 1)) * 10 + digit_val(s.last())
    }
}

/// The token without its single leading sign, if it carries one.
pub open spec fn int_token_body(s: Seq<char>) -> Seq<char> {
    if s.len() > 0 && (s[0] == '+' || s[0] == '-') {
        s.skip(1)
    } else {
        s
    }
}

pub open spec fn int_token_negative(s: Seq<char>) -> bool {
    s.len() > 0 && s[0] == '-'
}

/// The integer a token denotes: an optional sign followed by one or more
/// digits, as `str::parse` reads the integer types, unbounded.
pub open spec fn parse_int(s: Seq<char>) -> Option<int> {
    let body = int_token_body(s);
    if body.len() == 0 || !all_digits(body) {
        None
    } else if int_token_negative(s) {
        Some(-digits_val(body))
    } else {
        Some(digits_val(body))
    }
}

/// `parse_int` cut to `isize`: a value out of range does not parse.
pub open spec fn parse_isize(s: Seq<char>) -> Option<isize> {
    match parse_int(s) {
        Some(v) => if isize::MIN <= v <= isize::MAX {
            Some(v as isize)
        } else {
            None
        },
        None => None,
    }
}

pub open spec fn parse_i8(s: Seq<char>) -> Option<i8> {
    match parse_int(s) {
        Some(v) => if i8::MIN <= v <= i8::MAX {
            Some(v as i8)
        } else {
            None
        },
        None => None,
    }
}

pub open spec fn parse_i16(s: Seq<char>) -> Option<i16> {
    match parse_int(s) {
        Some(v) => if i16::MIN <= v <= i16::MAX {
            Some(v as i16)
        } else {
            None
        },
        None => None,
    }
}

pub open spec fn parse_i32(s: Seq<char>) -> Option<i32> {
    match parse_int(s) {
        Some(v) => if i32::MIN <= v <= i32::MAX {
            Some(v as i32)
        } else {
            None
        },
        None => None,
    }
}

pub open spec fn parse_i64(s: Seq<char>) -> Option<i64> {
    match parse_int(s) {
        Some(v) => if i64::MIN <= v <= i64::MAX {
            Some(v as i64)
        } else {
            None
        },
        None => None,
    }
}

/// `parse_int` cut to `usize`: a leading minus or a value out of range
/// does not parse.
pub open spec fn parse_usize(s: Seq<char>) -> Option<usize> {
    if int_token_negative(s) {
        None
    } else {
        match parse_int(s) {
            Some(v) => if v <= usize::MAX {
                Some(v as usize)
            } else {
                None
            },
            None => None,
        }
    }
}

pub open spec fn parse_u8(s: Seq<char>) -> Option<u8> {
    if int_token_negative(s) {
        None
    } else {
        match parse_int(s) {
            Some(v) => if v <= u8::MAX {
                Some(v as u8)
            } else {
                None
            },
            None => None,
        }
    }
}

pub open spec fn parse_u16(s: Seq<char>) -> Option<u16> {
    if int_token_negative(s) {
        None
    } else {
        match parse_int(s) {
            Some(v) => if v <= u16::MAX {
                Some(v as u16)
            } else {
                None
            },
            None => None,
        }
    }
}

pub open spec fn parse_u32(s: Seq<char>) -> Option<u32> {
    if int_token_negative(s) {
        None
    } else {
        match parse_int(s) {
            Some(v) => if v <= u32::MAX {
                Some(v as u32)
            } else {
                None
            },
            None => None,
        }
    }
}

pub open spec fn parse_u64(s: Seq<char>) -> Option<u64> {
    if int_token_negative(s) {
        None
    } else {
        match parse_int(s) {
            Some(v) => if v <= u64::MAX {
                Some(v as u64)
            } else {
                None
            },
            None => None,
        }
    }
}

/// A one-character token denotes that character, as `str::parse::<char>`
/// reads it; any other token does not parse.
pub open spec fn parse_char(s: Seq<char>) -> Option<char> {
    if s.len() == 1 {
        Some(s[0])
    } else {
        None
    }
}

pub proof fn lemma_digits_val_nonneg(s: Seq<char>)
    requires
        all_digits(s),
    ensures
        digits_val(s) >= 0,
    decreases s.len(),
{
    if s.len() > 0 {
        lemma_digits_val_nonneg(s.take(s.len() - 1));
    }
}

/// A digit string is at least as large as any of its prefixes.
pub proof fn lemma_digits_val_prefix(s: Seq<char>, k: int)
    requires
        all_digits(s),
        0 <= k <= s.len(),
    ensures
        digits_val(s) >= digits_val(s.take(k)),
    decreases s.len(),
{
    if k == s.len() {
        assert(s.take(k) =~= s);
    } else {
        let head = s.take(s.len() - 1);
        lemma_digits_val_nonneg(head);
        lemma_digits_val_prefix(head, k);
        assert(head.take(k) =~= s.take(k));
    }
}

/// Reads the token as an optional sign and a digit string, capping the
/// magnitude: the sign and the digits' value exactly when the token is
/// well formed and its magnitude is at most `limit`. All the numeric
/// instances share this one loop.
fn parse_magnitude(t: &str, limit: u128) -> (r: Option<(bool, u128)>)
    requires
        limit <= (u128::MAX - 9) / 10,
    ensures
        ({
            let body = int_token_body(t@);
            ((r is Some) <==> (body.len() > 0 && all_digits(body) && digits_val(body) <= limit))
                && (r matches Some(p) ==> p.0 == int_token_negative(t@) && p.1 == digits_val(
                body,
            ))
        }),
{
    let n = t.unicode_len();
    if n == 0 {
        return None;
    }
    let c0 = t.get_char(0);
    let negative = c0 == '-';
    let has_sign = negative || c0 == '+';
    let offset: usize = if has_sign {
        1
    } else {
        0
    };
    let ghost body = int_token_body(t@);
    proof {
        assert(body =~= t@.skip(offset as int));
    }
    if offset == n {
        return None;
    }
    let mut mag: u128 = 0;
    let mut i: usize = offset;
    while i < n
        invariant
            n == t@.len(),
            offset <= i <= n,
            body == int_token_body(t@),
            body == t@.skip(offset as int),
            body.len() == n - offset,
            forall|j: int| 0 <= j < i - offset ==> is_digit(#[trigger] body[j]),
            mag == digits_val(body.take(i - offset)),
            mag <= limit,
            limit <= (u128::MAX - 9) / 10,
        decreases n - i,
    {
        let c = t.get_char(i);
        proof {
            assert(body[i - offset] == t@[i as int]);
        }
        if !(c >= '0' && c <= '9') {
            proof {
                assert(!is_digit(body[i - offset]));
                assert(!all_digits(body));
            }
            return None;
        }
        let d: u128 = (c as u32 - '0' as u32) as u128;
        let next = mag * 10 + d;
        proof {
            let k = i - offset;
            assert(body.take(k + 1).take(k) =~= body.take(k));
            assert(body.take(k + 1).last() == body[k]);
            assert(digits_val(body.take(k + 1)) == digits_val(body.take(k)) * 10 + digit_val(
                body[k],
            ));
        }
        if next > limit {
            proof {
                let k = i - offset + 1;
                if all_digits(body) {
                    lemma_digits_val_prefix(body, k);
                    assert(digits_val(body) >= next);
                }
            }
            return None;
        }
        mag = next;
        i += 1;
    }
    proof {
        assert(body.take(n - offset) =~= body);
        assert(all_digits(body));
        lemma_digits_val_nonneg(body);
    }
    Some((negative, mag))
}

/// Parses a token as `isize`, exactly as `parse_isize` says.
pub fn parse_isize_token(t: &str) -> (r: Option<isize>)
    ensures
        r == parse_isize(t@),
{
    match parse_magnitude(t, (isize::MAX as u128) + 1) {
        Some((neg, mag)) => {
            if neg {
                Some((-(mag as i128)) as isize)
            } else if mag <= isize::MAX as u128 {
                Some(mag as isize)
            } else {
                None
            }
        },
        None => None,
    }
}

/// Parses a token as `i8`, exactly as `parse_i8` says.
pub fn parse_i8_token(t: &str) -> (r: Option<i8>)
    ensures
        r == parse_i8(t@),
{
    match parse_magnitude(t, (i8::MAX as u128) + 1) {
        Some((neg, mag)) => {
            if neg {
                Some((-(mag as i128)) as i8)
            } else if mag <= i8::MAX as u128 {
                Some(mag as i8)
            } else {
                None
            }
        },
        None => None,
    }
}

/// Parses a token as `i16`, exactly as `parse_i16` says.
pub fn parse_i16_token(t: &str) -> (r: Option<i16>)
    ensures
        r == parse_i16(t@),
{
    match parse_magnitude(t, (i16::MAX as u128) + 1) {
        Some((neg, mag)) => {
            if neg {
                Some((-(mag as i128)) as i16)
            } else if mag <= i16::MAX as u128 {
                Some(mag as i16)
            } else {
                None
            }
        },
        None => None,
    }
}

/// Parses a token as `i32`, exactly as `parse_i32` says.
pub fn parse_i32_token(t: &str) -> (r: Option<i32>)
    ensures
        r == parse_i32(t@),
{
    match parse_magnitude(t, (i32::MAX as u128) + 1) {
        Some((neg, mag)) => {
            if neg {
                Some((-(mag as i128)) as i32)
            } else if mag <= i32::MAX as u128 {
                Some(mag as i32)
            } else {
                None
            }
        },
        None => None,
    }
}

/// Parses a token as `i64`, exactly as `parse_i64` says.
pub fn parse_i64_token(t: &str) -> (r: Option<i64>)
    ensures
        r == parse_i64(t@),
{
    match parse_magnitude(t, (i64::MAX as u128) + 1) {
        Some((neg, mag)) => {
            if neg {
                Some((-(mag as i128)) as i64)
            } else if mag <= i64::MAX as u128 {
                Some(mag as i64)
            } else {
                None
            }
        },
        None => None,
    }
}

/// Parses a token as `usize`, exactly as `parse_usize` says.
pub fn parse_usize_token(t: &str) -> (r: Option<usize>)
    ensures
        r == parse_usize(t@),
{
    match parse_magnitude(t, usize::MAX as u128) {
        Some((neg, mag)) => {
            if neg {
                None
            } else {
                Some(mag as usize)
            }
        },
        None => None,
    }
}

/// Parses a token as `u8`, exactly as `parse_u8` says.
pub fn parse_u8_token(t: &str) -> (r: Option<u8>)
    ensures
        r == parse_u8(t@),
{
    match parse_magnitude(t, u8::MAX as u128) {
        Some((neg, mag)) => {
            if neg {
                None
            } else {
                Some(mag as u8)
            }
        },
        None => None,
    }
}

/// Parses a token as `u16`, exactly as `parse_u16` says.
pub fn parse_u16_token(t: &str) -> (r: Option<u16>)
    ensures
        r == parse_u16(t@),
{
    match parse_magnitude(t, u16::MAX as u128) {
        Some((neg, mag)) => {
            if neg {
                None
            } else {
                Some(mag as u16)
            }
        },
        None => None,
    }
}

/// Parses a token as `u32`, exactly as `parse_u32` says.
pub fn parse_u32_token(t: &str) -> (r: Option<u32>)
    ensures
        r == parse_u32(t@),
{
    match parse_magnitude(t, u32::MAX as u128) {
        Some((neg, mag)) => {
            if neg {
                None
            } else {
                Some(mag as u32)
            }
        },
        None => None,
    }
}

/// Parses a token as `u64`, exactly as `parse_u64` says.
pub fn parse_u64_token(t: &str) -> (r: Option<u64>)
    ensures
        r == parse_u64(t@),
{
    match parse_magnitude(t, u64::MAX as u128) {
        Some((neg, mag)) => {
            if neg {
                None
            } else {
                Some(mag as u64)
            }
        },
        None => None,
    }
}

impl TokenValue for isize {
    open spec fn spec_parse(t: Seq<char>) -> Option<isize> {
        parse_isize(t)
    }

    fn parse_token(t: &str) -> (r: Option<isize>) {
        parse_isize_token(t)
    }
}

impl TokenValue for i8 {
    open spec fn spec_parse(t: Seq<char>) -> Option<i8> {
        parse_i8(t)
    }

    fn parse_token(t: &str) -> (r: Option<i8>) {
        parse_i8_token(t)
    }
}

impl TokenValue for i16 {
    open spec fn spec_parse(t: Seq<char>) -> Option<i16> {
        parse_i16(t)
    }

    fn parse_token(t: &str) -> (r: Option<i16>) {
        parse_i16_token(t)
    }
}

impl TokenValue for i32 {
    open spec fn spec_parse(t: Seq<char>) -> Option<i32> {
        parse_i32(t)
    }

    fn parse_token(t: &str) -> (r: Option<i32>) {
        parse_i32_token(t)
    }
}

impl TokenValue for i64 {
    open spec fn spec_parse(t: Seq<char>) -> Option<i64> {
        parse_i64(t)
    }

    fn parse_token(t: &str) -> (r: Option<i64>) {
        parse_i64_token(t)
    }
}

impl TokenValue for usize {
    open spec fn spec_parse(t: Seq<char>) -> Option<usize> {
        parse_usize(t)
    }

    fn parse_token(t: &str) -> (r: Option<usize>) {
        parse_usize_token(t)
    }
}

impl TokenValue for u8 {
    open spec fn spec_parse(t: Seq<char>) -> Option<u8> {
        parse_u8(t)
    }

    fn parse_token(t: &str) -> (r: Option<u8>) {
        parse_u8_token(t)
    }
}

impl TokenValue for u16 {
    open spec fn spec_parse(t: Seq<char>) -> Option<u16> {
        parse_u16(t)
    }

    fn parse_token(t: &str) -> (r: Option<u16>) {
        parse_u16_token(t)
    }
}

impl TokenValue for u32 {
    open spec fn spec_parse(t: Seq<char>) -> Option<u32> {
        parse_u32(t)
    }

    fn parse_token(t: &str) -> (r: Option<u32>) {
        parse_u32_token(t)
    }
}

impl TokenValue for u64 {
    open spec fn spec_parse(t: Seq<char>) -> Option<u64> {
        parse_u64(t)
    }

    fn parse_token(t: &str) -> (r: Option<u64>) {
        parse_u64_token(t)
    }
}

impl TokenValue for char {
    open spec fn spec_parse(t: Seq<char>) -> Option<char> {
        parse_char(t)
    }

    fn parse_token(t: &str) -> (r: Option<char>) {
        if t.unicode_len() == 1 {
            Some(t.get_char(0))
        } else {
            None
        }
    }
}

impl TokenValue for String {
    /// Every token is text, so parsing as text never fails.
    open spec fn spec_parse(t: Seq<char>) -> Option<Seq<char>> {
        Some(t)
    }

    fn parse_token(t: &str) -> (r: Option<String>) {
        Some(String::from_str(t))
    }
}

} // verus!
