//! Digits as characters, decimal rendering of numbers, and parsing of
//! unsigned decimal numerals as the standard library's `parse` does it.

use vstd::prelude::*;

verus! {

/// Whether a character is an ASCII decimal digit.
pub open spec fn is_digit_char(c: char) -> bool {
    48 <= c as u32 <= 57
}

/// The numeric value of an ASCII decimal digit character.
pub open spec fn digit_val(c: char) -> int {
    c as u32 - 48
}

/// The character of a digit value in `0..=9`.
pub open spec fn spec_digit_char(d: int) -> char {
    if d == 0 {
        '0'
    } else if d == 1 {
        '1'
    } else if d == 2 {
        '2'
    } else if d == 3 {
        '3'
    } else if d == 4 {
        '4'
    } else if d == 5 {
        '5'
    } else if d == 6 {
        '6'
    } else if d == 7 {
        '7'
    } else if d == 8 {
        '8'
    } else {
        '9'
    }
}

/// A digit value in `0..=9` renders to a digit character that carries the
/// same value back.
pub proof fn lemma_digit_char_val(d: int)
    requires
        0 <= d < 10,
    ensures
        is_digit_char(spec_digit_char(d)),
        digit_val(spec_digit_char(d)) == d,
{
}

/// The characters of a digit sequence, one character per digit.
pub open spec fn digit_string(ds: Seq<u8>) -> Seq<char> {
    Seq::new(ds.len(), |i: int| spec_digit_char(ds[i] as int))
}

/// The decimal numeral of a natural number, most significant digit first,
/// without sign or padding.
pub open spec fn dec_str(n: nat) -> Seq<char>
    decreases n,
{
    if n < 10 {
        seq![spec_digit_char(n as int)]
    } else {
        dec_str(n / 10) + seq![spec_digit_char((n % 10) as int)]
    }
}

/// The single-character string of a digit in `0..=9`.
pub fn digit_str(d: u8) -> (r: &'static str)
    requires
        d < 10,
    ensures
        r@ =~= seq![spec_digit_char(d as int)],
{
    proof {
        reveal_strlit("0");
        reveal_strlit("1");
        reveal_strlit("2");
        reveal_strlit("3");
        reveal_strlit("4");
        reveal_strlit("5");
        reveal_strlit("6");
        reveal_strlit("7");
        reveal_strlit("8");
        reveal_strlit("9");
    }
    match d {
        0 => "0",
        1 => "1",
        2 => "2",
        3 => "3",
        4 => "4",
        5 => "5",
        6 => "6",
        7 => "7",
        8 => "8",
        _ => "9",
    }
}

/// Renders a number as its decimal numeral.
pub fn u64_to_string(n: u64) -> (r: String)
    ensures
        r@ == dec_str(n as nat),
    decreases n,
{
    if n < 10 {
        let mut s = String::new();
        s.append(digit_str(n as u8));
        assert(s@ =~= dec_str(n as nat));
        s
    } else {
        let mut s = u64_to_string(n / 10);
        s.append(digit_str((n % 10) as u8));
        assert(s@ =~= dec_str(n as nat));
        s
    }
}

/// The ways parsing a decimal numeral can fail, mirroring the standard
/// library's error kinds for unsigned integers.
#[derive(Clone, Copy, Debug, PartialEq, Eq, Structural)]
pub enum NumParseError {
    /// The input was empty.
    Empty,
    /// A character that is not a decimal digit was found.
    InvalidDigit,
    /// The value does not fit in the target type.
    PosOverflow,
}

/// Scans a digit sequence left to right, accumulating a value already read,
/// and fails on the first character that is not a digit or the first step
/// that would push the value above `max`.
pub open spec fn scan_digits(s: Seq<char>, acc: int, max: int) -> Result<int, NumParseError>
    decreases s.len(),
{
    if s.len() == 0 {
        Ok(acc)
    } else if !is_digit_char(s[0]) {
        Err(NumParseError::InvalidDigit)
    } else if acc * 10 + digit_val(s[0]) > max {
        Err(NumParseError::PosOverflow)
    } else {
        scan_digits(s.drop_first(), acc * 10 + digit_val(s[0]), max)
    }
}

/// What parsing an unsigned decimal numeral bounded by `max` returns: the
/// empty string is `Empty`; a leading `+` sign is accepted but must be
/// followed by at least one digit; digits are scanned left to right and the
/// first failure wins.
pub open spec fn parse_uint(s: Seq<char>, max: int) -> Result<int, NumParseError> {
    if s.len() == 0 {
        Err(NumParseError::Empty)
    } else if s[0] == '+' {
        if s.len() == 1 {
            Err(NumParseError::InvalidDigit)
        } else {
            scan_digits(s.drop_first(), 0, max)
        }
    } else {
        scan_digits(s, 0, max)
    }
}

/// Parses an unsigned decimal numeral of at most `max`, as `str::parse` for
/// an unsigned integer type with that maximum does.
pub fn parse_u64_bounded(s: &str, max: u64) -> (r: Result<u64, NumParseError>)
    requires
        max <= 0xffff_ffff,
    ensures
        r matches Ok(v) ==> parse_uint(s@, max as int) == Ok::<int, NumParseError>(v as int) && v
            <= max,
        r matches Err(e) ==> parse_uint(s@, max as int) == Err::<int, NumParseError>(e),
{
    let n = s.unicode_len();
    if n == 0 {
        return Err(NumParseError::Empty);
    }
    let c0 = s.get_char(0);
    let start: usize = if c0 == '+' {
        1
    } else {
        0
    };
    if n == start {
        return Err(NumParseError::InvalidDigit);
    }
    assert(s@.skip(0) =~= s@);
    assert(s@.drop_first() =~= s@.skip(1));
    let mut acc: u64 = 0;
    let mut i: usize = start;
    while i < n
        invariant
            start <= i <= n,
            n == s@.len(),
            max <= 0xffff_ffff,
            0 <= acc <= max,
            parse_uint(s@, max as int) == scan_digits(s@.skip(i as int), acc as int, max as int),
        decreases n - i,
    {
        let c = s.get_char(i);
        let u = c as u32;
        assert(s@.skip(i as int)[0] == s@[i as int]);
        assert(s@.skip(i as int).drop_first() =~= s@.skip(i + 1));
        if u < 48 || u > 57 {
            return Err(NumParseError::InvalidDigit);
        }
        let next: u64 = acc * 10 + (u - 48) as u64;
        if next > max {
            return Err(NumParseError::PosOverflow);
        }
        acc = next;
        i = i + 1;
    }
    assert(s@.skip(n as int) =~= Seq::<char>::empty());
    Ok(acc)
}

/// The message with which the standard library displays each numeral parse
/// error.
pub open spec fn parse_err_msg(e: NumParseError) -> Seq<char> {
    match e {
        NumParseError::Empty => "cannot parse integer from empty string"@,
        NumParseError::InvalidDigit => "invalid digit found in string"@,
        NumParseError::PosOverflow => "number too large to fit in target type"@,
    }
}

/// Renders a numeral parse error as the standard library would.
pub fn parse_err_string(e: NumParseError) -> (r: String)
    ensures
        r@ == parse_err_msg(e),
{
    match e {
        NumParseError::Empty => String::from_str("cannot parse integer from empty string"),
        NumParseError::InvalidDigit => String::from_str("invalid digit found in string"),
        NumParseError::PosOverflow => String::from_str("number too large to fit in target type"),
    }
}

} // verus!
