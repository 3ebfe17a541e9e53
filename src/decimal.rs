//! Decimal integers as journal fields carry them: parsing with the rules of
//! `str::parse` for unsigned and signed integers, and rendering.

use vstd::prelude::*;

verus! {

pub open spec fn is_digit(c: char) -> bool {
    '0' <= c && c <= '9'
}

pub open spec fn digit_value(c: char) -> int {
    (c as int) - ('0' as int)
}

pub open spec fn all_digits(s: Seq<char>) -> bool {
    forall|i: int| 0 <= i < s.len() ==> is_digit(#[trigger] s[i])
}

/// The value of a string of decimal digits.
pub open spec fn digits_value(s: Seq<char>) -> int
    decreases s.len(),
{
    if s.len() == 0 {
        0
    } else {
        digits_value(s.drop_last()) * 10 + digit_value(s.last())
    }
}

/// The magnitude and sign that a text spells: an optional `+` (or `-` when
/// `signed`) followed by at least one digit.
pub open spec fn spelled(s: Seq<char>, signed: bool) -> Option<(bool, int)> {
    let neg = s.len() > 0 && s[0] == '-' && signed;
    let body = if s.len() > 0 && (s[0] == '+' || (s[0] == '-' && signed)) {
        s.drop_first()
    } else {
        s
    };
    if body.len() > 0 && all_digits(body) {
        Some((neg, digits_value(body)))
    } else {
        None
    }
}

/// `str::parse::<u8>`.
pub open spec fn parse_u8_spec(s: Seq<char>) -> Option<u8> {
    match spelled(s, false) {
        Some((_, v)) => if v <= 255 { Some(v as u8) } else { None },
        None => None,
    }
}

/// `str::parse::<i32>`.
pub open spec fn parse_i32_spec(s: Seq<char>) -> Option<i32> {
    match spelled(s, true) {
        Some((neg, v)) => if neg && v <= 0x8000_0000 {
            Some((-v) as i32)
        } else if !neg && v <= 0x7fff_ffff {
            Some(v as i32)
        } else {
            None
        },
        None => None,
    }
}

/// The decimal rendering of a `u8`, without leading zeros.
pub open spec fn u8_text(n: u8) -> Seq<char> {
    if n < 10 {
        seq![digit_char(n as int)]
    } else if n < 100 {
        seq![digit_char((n / 10) as int), digit_char((n % 10) as int)]
    } else {
        seq![digit_char((n / 100) as int), digit_char(((n / 10) % 10) as int), digit_char((n % 10) as int)]
    }
}

pub open spec fn digit_char(d: int) -> char {
    (d + ('0' as int)) as char
}

pub fn to_digit_char(d: u8) -> (r: char)
    requires
        d < 10,
    ensures
        r == digit_char(d as int),
{
    if d == 0 { '0' } else if d == 1 { '1' } else if d == 2 { '2' } else if d == 3 { '3' }
    else if d == 4 { '4' } else if d == 5 { '5' } else if d == 6 { '6' } else if d == 7 { '7' }
    else if d == 8 { '8' } else { '9' }
}

/// Renders a `u8` in decimal.
pub fn u8_to_text(n: u8) -> (r: String)
    ensures
        r@ == u8_text(n),
{
    let mut v: Vec<char> = Vec::new();
    if n >= 100 {
        v.push(to_digit_char(n / 100));
    }
    if n >= 10 {
        v.push(to_digit_char((n / 10) % 10));
    }
    v.push(to_digit_char(n % 10));
    proof {
        if n < 10 {
            assert(v@ =~= u8_text(n));
        } else if n < 100 {
            assert(n / 10 < 10);
            assert((n / 10) % 10 == n / 10);
            assert(v@ =~= u8_text(n));
        } else {
            assert(v@ =~= u8_text(n));
        }
    }
    crate::text::string_from_chars(&v)
}

/// Reads an optional sign and then digits, stopping as soon as the value
/// exceeds `cap`; returns the sign and the value, or `None` when the text is
/// not a sign followed by digits or the value exceeds `cap`.
fn read_decimal(s: &str, signed: bool, cap: u64) -> (r: Option<(bool, u64)>)
    requires
        cap < 0x1_0000_0000,
    ensures
        match spelled(s@, signed) {
            Some((neg, v)) => if v <= cap {
                r == Some((neg, v as u64))
            } else {
                r is None
            },
            None => r is None,
        },
        spelled(s@, signed) matches Some((_, v)) ==> v >= 0,
{
    let chars = crate::text::char_vec(s);
    let n = chars.len();
    let neg = n > 0 && chars[0] == '-' && signed;
    let start: usize = if n > 0 && (chars[0] == '+' || (chars[0] == '-' && signed)) {
        1
    } else {
        0
    };
    let ghost body = if s@.len() > 0 && (s@[0] == '+' || (s@[0] == '-' && signed)) {
        s@.drop_first()
    } else {
        s@
    };
    assert(body == chars@.subrange(start as int, n as int));
    proof {
        if all_digits(body) {
            lemma_digits_nonneg(body);
        }
    }
    if start >= n {
        return None;
    }
    let mut value: u64 = 0;
    let mut i: usize = start;
    while i < n
        invariant
            start <= i <= n == chars@.len(),
            chars@ == s@,
            body == chars@.subrange(start as int, n as int),
            all_digits(chars@.subrange(start as int, i as int)),
            value as int == digits_value(chars@.subrange(start as int, i as int)),
            value <= cap,
            cap < 0x1_0000_0000,
            all_digits(body) ==> digits_value(body) >= 0,
            spelled(s@, signed) == (if body.len() > 0 && all_digits(body) {
                Some((neg, digits_value(body)))
            } else {
                None
            }),
        decreases n - i,
    {
        let c = chars[i];
        if !('0' <= c && c <= '9') {
            assert(!is_digit(body[i - start]));
            assert(!all_digits(body));
            return None;
        }
        let d = (c as u32 - '0' as u32) as u64;
        let ghost prefix = chars@.subrange(start as int, i + 1);
        assert(prefix.drop_last() == chars@.subrange(start as int, i as int));
        assert(prefix.last() == c);
        let next = value * 10 + d;
        if next > cap {
            proof {
                if all_digits(body) {
                    assert(body.subrange(0, (i + 1 - start) as int) == prefix);
                    lemma_digits_monotone(body, (i + 1 - start) as int);
                }
            }
            return None;
        }
        value = next;
        i += 1;
    }
    assert(chars@.subrange(start as int, n as int) == body);
    assert(body.len() > 0 && all_digits(body));
    assert(spelled(s@, signed) == Some((neg, value as int)));
    Some((neg, value))
}

/// A longer digit prefix never has a smaller value.
proof fn lemma_digits_monotone(s: Seq<char>, k: int)
    requires
        0 <= k <= s.len(),
        all_digits(s),
    ensures
        digits_value(s) >= digits_value(s.subrange(0, k)),
        digits_value(s.subrange(0, k)) >= 0,
    decreases s.len(),
{
    if s.len() == 0 {
        assert(s.subrange(0, k) =~= s);
    } else if k == s.len() {
        assert(s.subrange(0, k) =~= s);
        lemma_digits_nonneg(s);
    } else {
        assert(s.drop_last().subrange(0, k) =~= s.subrange(0, k));
        lemma_digits_monotone(s.drop_last(), k);
        lemma_digits_nonneg(s.drop_last());
        assert(is_digit(s[s.len() - 1]));
    }
}

proof fn lemma_digits_nonneg(s: Seq<char>)
    requires
        all_digits(s),
    ensures
        digits_value(s) >= 0,
    decreases s.len(),
{
    if s.len() > 0 {
        lemma_digits_nonneg(s.drop_last());
        assert(is_digit(s[s.len() - 1]));
    }
}

/// `str::parse::<u8>`.
pub fn parse_u8(s: &str) -> (r: Option<u8>)
    ensures
        r == parse_u8_spec(s@),
{
    match read_decimal(s, false, 255) {
        Some((_, v)) => Some(v as u8),
        None => None,
    }
}

/// `str::parse::<i32>`.
pub fn parse_i32(s: &str) -> (r: Option<i32>)
    ensures
        r == parse_i32_spec(s@),
{
    match read_decimal(s, true, 0x8000_0000) {
        Some((neg, v)) => {
            if neg {
                Some((0 - (v as i64)) as i32)
            } else if v <= 0x7fff_ffff {
                Some(v as i32)
            } else {
                None
            }
        },
        None => None,
    }
}

/// The decimal digits of a natural number, most significant first.
pub open spec fn nat_text(n: nat) -> Seq<char>
    decreases n,
{
    if n < 10 {
        seq![digit_char(n as int)]
    } else {
        nat_text(n / 10) + seq![digit_char((n % 10) as int)]
    }
}

/// The decimal text of an integer, with a leading `-` when negative.
pub open spec fn int_text(n: int) -> Seq<char> {
    if n < 0 {
        seq!['-'] + nat_text((-n) as nat)
    } else {
        nat_text(n as nat)
    }
}

fn nat_chars(n: u128) -> (r: Vec<char>)
    ensures
        r@ == nat_text(n as nat),
    decreases n,
{
    if n < 10 {
        let mut v: Vec<char> = Vec::new();
        v.push(to_digit_char(n as u8));
        v
    } else {
        let mut v = nat_chars(n / 10);
        v.push(to_digit_char((n % 10) as u8));
        v
    }
}

/// The decimal text of an integer.
pub fn i128_chars(n: i128) -> (r: Vec<char>)
    requires
        n > i128::MIN,
    ensures
        r@ == int_text(n as int),
{
    if n < 0 {
        let mut v: Vec<char> = Vec::new();
        v.push('-');
        let digits = nat_chars((-n) as u128);
        let mut i: usize = 0;
        while i < digits.len()
            invariant
                i <= digits@.len(),
                v@ == seq!['-'] + digits@.subrange(0, i as int),
            decreases digits@.len() - i,
        {
            v.push(digits[i]);
            assert(digits@.subrange(0, i + 1) == digits@.subrange(0, i as int).push(digits@[i as int]));
            i += 1;
        }
        assert(digits@.subrange(0, digits@.len() as int) == digits@);
        v
    } else {
        nat_chars(n as u128)
    }
}

/// The decimal text of a count.
pub fn usize_to_text(n: usize) -> (r: String)
    ensures
        r@ == int_text(n as int),
{
    let v = i128_chars(n as i128);
    crate::text::string_from_chars(&v)
}

/// `str::parse::<u16>`.
pub open spec fn parse_u16_spec(s: Seq<char>) -> Option<u16> {
    match spelled(s, false) {
        Some((_, v)) => if v <= 65535 { Some(v as u16) } else { None },
        None => None,
    }
}

/// `str::parse::<u16>`.
pub fn parse_u16(s: &str) -> (r: Option<u16>)
    ensures
        r == parse_u16_spec(s@),
{
    match read_decimal(s, false, 65535) {
        Some((_, v)) => Some(v as u16),
        None => None,
    }
}

} // verus!
