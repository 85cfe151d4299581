//! Decimal numbers: parsing an unsigned 64-bit integer the way `str::parse::<u64>`
//! does, and writing one out in decimal.

use vstd::prelude::*;

use crate::text::push_char;

verus! {

/// Why a string is not an unsigned 64-bit decimal number.
#[derive(Debug, Clone, Copy, PartialEq, Eq, Structural)]
pub enum ParseNumberError {
    /// The string is empty.
    Empty,
    /// A character is not a decimal digit (or a lone sign).
    InvalidDigit,
    /// The value does not fit in 64 bits.
    Overflow,
}

impl ParseNumberError {
    /// The sentence that describes the error, as the standard library words it.
    pub open spec fn text(self) -> Seq<char> {
        match self {
            ParseNumberError::Empty => "cannot parse integer from empty string"@,
            ParseNumberError::InvalidDigit => "invalid digit found in string"@,
            ParseNumberError::Overflow => "number too large to fit in target type"@,
        }
    }

    /// The sentence that describes the error.
    pub fn description(&self) -> (res: &'static str)
        ensures
            res@ == self.text(),
    {
        match self {
            ParseNumberError::Empty => "cannot parse integer from empty string",
            ParseNumberError::InvalidDigit => "invalid digit found in string",
            ParseNumberError::Overflow => "number too large to fit in target type",
        }
    }
}

pub open spec fn is_digit(c: char) -> bool {
    '0' <= c && c <= '9'
}

pub open spec fn digit_value(c: char) -> nat {
    (c as int - '0' as int) as nat
}

/// Reads the digits of `s` left to right after the value `acc`: the first
/// character that is no digit is an error, and so is the first step whose
/// value leaves the 64-bit range.
pub open spec fn digits_value_from(acc: nat, s: Seq<char>) -> Result<nat, ParseNumberError>
    decreases s.len(),
{
    if s.len() == 0 {
        Ok(acc)
    } else if !is_digit(s[0]) {
        Err(ParseNumberError::InvalidDigit)
    } else if acc * 10 + digit_value(s[0]) > u64::MAX {
        Err(ParseNumberError::Overflow)
    } else {
        digits_value_from(acc * 10 + digit_value(s[0]), s.drop_first())
    }
}

/// What parsing `s` as a `u64` gives: an optional leading `+`, then one or
/// more decimal digits.
pub open spec fn spec_parse_u64(s: Seq<char>) -> Result<u64, ParseNumberError> {
    if s.len() == 0 {
        Err(ParseNumberError::Empty)
    } else if s.len() == 1 && (s[0] == '+' || s[0] == '-') {
        Err(ParseNumberError::InvalidDigit)
    } else {
        let digits = if s[0] == '+' { s.drop_first() } else { s };
        match digits_value_from(0, digits) {
            Ok(v) => Ok(v as u64),
            Err(e) => Err(e),
        }
    }
}

proof fn lemma_digits_value_bounded(acc: nat, s: Seq<char>)
    requires
        acc <= u64::MAX,
    ensures
        digits_value_from(acc, s) matches Ok(v) ==> v <= u64::MAX,
    decreases s.len(),
{
    if s.len() > 0 && is_digit(s[0]) && acc * 10 + digit_value(s[0]) <= u64::MAX {
        lemma_digits_value_bounded(acc * 10 + digit_value(s[0]), s.drop_first());
    }
}

/// Parses `s` as an unsigned 64-bit decimal number.
pub fn parse_u64(s: &str) -> (res: Result<u64, ParseNumberError>)
    ensures
        res == spec_parse_u64(s@),
{
    let n = s.unicode_len();
    if n == 0 {
        return Err(ParseNumberError::Empty);
    }
    let first = s.get_char(0);
    if n == 1 && (first == '+' || first == '-') {
        return Err(ParseNumberError::InvalidDigit);
    }
    let start: usize = if first == '+' { 1 } else { 0 };
    let ghost digits = if first == '+' { s@.drop_first() } else { s@ };
    assert(digits =~= s@.subrange(start as int, n as int));
    assert(spec_parse_u64(s@) == match digits_value_from(0, digits) {
        Ok(v) => Ok(v as u64),
        Err(e) => Err(e),
    });
    let mut acc: u64 = 0;
    let mut i: usize = start;
    while i < n
        invariant
            n == s@.len(),
            start <= i <= n,
            digits == s@.subrange(start as int, n as int),
            spec_parse_u64(s@) == match digits_value_from(0, digits) {
                Ok(v) => Ok(v as u64),
                Err(e) => Err(e),
            },
            digits_value_from(0, digits) == digits_value_from(acc as nat, s@.subrange(i as int, n as int)),
        decreases n - i,
    {
        let c = s.get_char(i);
        let ghost rest = s@.subrange(i as int, n as int);
        assert(rest[0] == c);
        assert(rest.drop_first() =~= s@.subrange(i + 1, n as int));
        if c < '0' || c > '9' {
            return Err(ParseNumberError::InvalidDigit);
        }
        let d: u64 = (c as u32 - '0' as u32) as u64;
        assert(d == digit_value(c));
        let next: u128 = acc as u128 * 10 + d as u128;
        if next > u64::MAX as u128 {
            return Err(ParseNumberError::Overflow);
        }
        acc = next as u64;
        i = i + 1;
    }
    assert(s@.subrange(n as int, n as int).len() == 0);
    proof {
        lemma_digits_value_bounded(0, digits);
    }
    Ok(acc)
}

/// The decimal digit character for `d` (below ten).
pub open spec fn digit_char(d: nat) -> char {
    ('0' as int + d) as char
}

/// The decimal notation of `n`, without sign or leading zeros.
pub open spec fn decimal(n: nat) -> Seq<char>
    decreases n,
{
    if n < 10 {
        seq![digit_char(n)]
    } else {
        decimal(n / 10).push(digit_char(n % 10))
    }
}

/// Appends the decimal notation of `n` to `s`.
pub fn push_decimal(s: &mut String, n: u64)
    ensures
        final(s)@ == old(s)@ + decimal(n as nat),
    decreases n,
{
    if n >= 10 {
        push_decimal(s, n / 10);
    }
    let d: u8 = (n % 10) as u8;
    let c: char = (48u8 + d) as char;
    assert(c == digit_char((n % 10) as nat));
    push_char(s, c);
}

/// The decimal notation of `n`.
pub fn decimal_string(n: u64) -> (res: String)
    ensures
        res@ == decimal(n as nat),
{
    let mut s = String::new();
    push_decimal(&mut s, n);
    assert(s@ =~= decimal(n as nat));
    s
}

proof fn lemma_digits_value_concat(acc: nat, s: Seq<char>, t: Seq<char>)
    ensures
        digits_value_from(acc, s + t) == match digits_value_from(acc, s) {
            Ok(v) => digits_value_from(v, t),
            Err(e) => Err(e),
        },
    decreases s.len(),
{
    if s.len() > 0 {
        assert((s + t)[0] == s[0]);
        assert((s + t).drop_first() =~= s.drop_first() + t);
        if is_digit(s[0]) && acc * 10 + digit_value(s[0]) <= u64::MAX {
            lemma_digits_value_concat(acc * 10 + digit_value(s[0]), s.drop_first(), t);
        }
    } else {
        assert(s + t =~= t);
    }
}

proof fn lemma_digit_char(d: nat)
    requires
        d < 10,
    ensures
        is_digit(digit_char(d)),
        digit_value(digit_char(d)) == d,
{
    assert(digit_char(d) as int == 48 + d);
}

proof fn lemma_decimal_digits(n: nat)
    requires
        n <= u64::MAX,
    ensures
        decimal(n).len() > 0,
        is_digit(decimal(n)[0]),
        is_digit(decimal(n).last()),
        digits_value_from(0, decimal(n)) == Ok::<nat, ParseNumberError>(n),
    decreases n,
{
    if n < 10 {
        lemma_digit_char(n);
        let s = decimal(n);
        assert(s.drop_first().len() == 0);
        assert(digits_value_from(n, s.drop_first()) == Ok::<nat, ParseNumberError>(n));
    } else {
        let m = n / 10;
        let d = n % 10;
        lemma_decimal_digits(m);
        lemma_digit_char(d);
        lemma_digits_value_concat(0, decimal(m), seq![digit_char(d)]);
        assert(decimal(m).push(digit_char(d)) =~= decimal(m) + seq![digit_char(d)]);
        assert(seq![digit_char(d)].drop_first().len() == 0);
        assert(m * 10 + d == n);
        let t = seq![digit_char(d)];
        assert(digits_value_from(n, t.drop_first()) == Ok::<nat, ParseNumberError>(n));
        assert(digits_value_from(m, t) == Ok::<nat, ParseNumberError>(n));
    }
}

/// The decimal notation of a number is a non-empty run of digits, without a
/// leading zero unless it is the single digit `0`.
pub proof fn lemma_decimal_is_digits(n: u64)
    ensures
        decimal(n as nat).len() > 0,
        forall|k: int| 0 <= k < decimal(n as nat).len() ==> is_digit(#[trigger] decimal(n as nat)[k]),
        decimal(n as nat).len() > 1 ==> decimal(n as nat)[0] != '0',
    decreases n,
{
    lemma_decimal_digits(n as nat);
    if n >= 10 {
        let m = n / 10;
        lemma_decimal_is_digits(m);
        lemma_digit_char((n % 10) as nat);
        assert forall|k: int| 0 <= k < decimal(n as nat).len() implies is_digit(
            #[trigger] decimal(n as nat)[k],
        ) by {
            if k < decimal(m as nat).len() {
                assert(decimal(n as nat)[k] == decimal(m as nat)[k]);
            }
        }
        if decimal(m as nat).len() == 1 {
            assert(m < 10) by {
                if m >= 10 {
                    lemma_decimal_digits((m / 10) as nat);
                }
            }
            lemma_digit_char(m as nat);
        }
        assert(decimal(n as nat)[0] == decimal(m as nat)[0]);
    } else {
        lemma_digit_char(n as nat);
    }
}

/// Parsing accepts only digits after an optional leading `+`.
pub proof fn lemma_parsed_text_is_digits(s: Seq<char>)
    ensures
        spec_parse_u64(s) is Ok ==> s.len() > 0 && (forall|k: int|
            (if s[0] == '+' { 1int } else { 0int }) <= k < s.len() ==> is_digit(#[trigger] s[k])),
{
    if spec_parse_u64(s) is Ok {
        let start: int = if s[0] == '+' { 1 } else { 0 };
        let digits = s.subrange(start, s.len() as int);
        assert(digits =~= if s[0] == '+' { s.drop_first() } else { s });
        lemma_ok_digits_are_digits(0, digits);
        assert forall|k: int| start <= k < s.len() implies is_digit(#[trigger] s[k]) by {
            assert(s[k] == digits[k - start]);
        }
    }
}

proof fn lemma_ok_digits_are_digits(acc: nat, s: Seq<char>)
    ensures
        digits_value_from(acc, s) is Ok ==> forall|k: int| 0 <= k < s.len() ==> is_digit(#[trigger] s[k]),
    decreases s.len(),
{
    if s.len() > 0 && is_digit(s[0]) && acc * 10 + digit_value(s[0]) <= u64::MAX {
        lemma_ok_digits_are_digits(acc * 10 + digit_value(s[0]), s.drop_first());
        if digits_value_from(acc, s) is Ok {
            assert forall|k: int| 0 <= k < s.len() implies is_digit(#[trigger] s[k]) by {
                if k > 0 {
                    assert(s[k] == s.drop_first()[k - 1]);
                }
            }
        }
    }
}

/// A leading `+` is allowed: `+` followed by a number in decimal reads as
/// that number.
pub proof fn lemma_parse_plus_decimal(n: u64)
    ensures
        spec_parse_u64(seq!['+'] + decimal(n as nat)) == Ok::<u64, ParseNumberError>(n),
{
    lemma_decimal_digits(n as nat);
    let s = seq!['+'] + decimal(n as nat);
    assert(s.drop_first() =~= decimal(n as nat));
}

/// Writing a number in decimal and parsing it back gives the number.
pub proof fn lemma_parse_decimal_round_trip(n: u64)
    ensures
        spec_parse_u64(decimal(n as nat)) == Ok::<u64, ParseNumberError>(n),
{
    lemma_decimal_digits(n as nat);
}

} // verus!
