//! Color utilities: parsing `#RRGGBB` / `#AARRGGBB` strings into channels.
//!
//! A channel is kept as an integer in `0 ..= 255`; the normalized channel the
//! drawing layer feeds to the 2D library is that integer divided by 255.

use vstd::prelude::*;

use crate::error::MyBarError;

verus! {

/// A parsed color: alpha, red, green and blue channels, each in `0 ..= 255`.
#[derive(Debug, Clone, Copy, PartialEq, Eq, Structural)]
pub struct Argb {
    pub a: u8,
    pub r: u8,
    pub g: u8,
    pub b: u8,
}

/// Whether `c` is an ASCII hexadecimal digit.
pub open spec fn is_hex_digit(c: char) -> bool {
    ('0' <= c && c <= '9') || ('a' <= c && c <= 'f') || ('A' <= c && c <= 'F')
}

/// The value of the hexadecimal digit `c`.
pub open spec fn hex_digit_val(c: char) -> int {
    if '0' <= c && c <= '9' {
        c as int - '0' as int
    } else if 'a' <= c && c <= 'f' {
        c as int - 'a' as int + 10
    } else {
        c as int - 'A' as int + 10
    }
}

/// The value of the two hexadecimal digits of `s` at positions `i` and `i + 1`.
pub open spec fn hex_pair_val(s: Seq<char>, i: int) -> int {
    16 * hex_digit_val(s[i]) + hex_digit_val(s[i + 1])
}

/// Whether `s` is a well-formed color string: `#` followed by exactly six or
/// exactly eight hexadecimal digits.
pub open spec fn valid_hex_color(s: Seq<char>) -> bool {
    &&& (s.len() == 7 || s.len() == 9)
    &&& s[0] == '#'
    &&& forall|i: int| 1 <= i < s.len() ==> is_hex_digit(#[trigger] s[i])
}

/// The alpha channel a well-formed color string denotes: the first pair when
/// eight digits are given, fully opaque otherwise.
pub open spec fn spec_alpha(s: Seq<char>) -> int {
    if s.len() == 9 {
        hex_pair_val(s, 1)
    } else {
        255
    }
}

/// The red channel a well-formed color string denotes.
pub open spec fn spec_red(s: Seq<char>) -> int {
    if s.len() == 9 {
        hex_pair_val(s, 3)
    } else {
        hex_pair_val(s, 1)
    }
}

/// The green channel a well-formed color string denotes.
pub open spec fn spec_green(s: Seq<char>) -> int {
    if s.len() == 9 {
        hex_pair_val(s, 5)
    } else {
        hex_pair_val(s, 3)
    }
}

/// The blue channel a well-formed color string denotes.
pub open spec fn spec_blue(s: Seq<char>) -> int {
    if s.len() == 9 {
        hex_pair_val(s, 7)
    } else {
        hex_pair_val(s, 5)
    }
}

/// The value of one hexadecimal digit, or `None` when `c` is not one.
fn hex_digit_value(c: char) -> (r: Option<u8>)
    ensures
        r is Some <==> is_hex_digit(c),
        r matches Some(v) ==> v == hex_digit_val(c),
{
    if '0' <= c && c <= '9' {
        Some((c as u32 - '0' as u32) as u8)
    } else if 'a' <= c && c <= 'f' {
        Some((c as u32 - 'a' as u32 + 10) as u8)
    } else if 'A' <= c && c <= 'F' {
        Some((c as u32 - 'A' as u32 + 10) as u8)
    } else {
        None
    }
}

/// The byte denoted by the two hexadecimal digits of `color` at positions
/// `i` and `i + 1`, or `None` when either is not a hexadecimal digit.
fn hex_pair_to_byte(color: &str, i: usize) -> (r: Option<u8>)
    requires
        i + 1 < color@.len(),
        color@.len() <= usize::MAX,
    ensures
        r is Some <==> is_hex_digit(color@[i as int]) && is_hex_digit(color@[i + 1]),
        r matches Some(v) ==> v == hex_pair_val(color@, i as int),
{
    let hi = hex_digit_value(color.get_char(i));
    let lo = hex_digit_value(color.get_char(i + 1));
    match (hi, lo) {
        (Some(h), Some(l)) => Some(16 * h + l),
        _ => None,
    }
}

/// The decimal digit character for `d`.
pub open spec fn digit_char(d: int) -> char {
    if d == 0 {
        '0'
    } else if d == 1 {
        '1'
    } else if d == 2 {
        '2'
    } else if d == 3 {
        '3'
    } else if d == 4 {
        '4'
    } else if d == 5 {
        '5'
    } else if d == 6 {
        '6'
    } else if d == 7 {
        '7'
    } else if d == 8 {
        '8'
    } else {
        '9'
    }
}

/// The decimal digits of a positive number, most significant first; empty
/// for zero and below.
pub open spec fn dec_digits(n: int) -> Seq<char>
    decreases n,
{
    if n <= 0 {
        Seq::empty()
    } else {
        dec_digits(n / 10).push(digit_char(n % 10))
    }
}

/// The decimal rendering of a number: digits, a leading `-` when negative,
/// and `0` for zero.
pub open spec fn dec_str(n: int) -> Seq<char> {
    if n == 0 {
        seq!['0']
    } else if n < 0 {
        seq!['-'] + dec_digits(-n)
    } else {
        dec_digits(n)
    }
}

/// The one-character string for the decimal digit `d`.
fn digit_str(d: u32) -> (r: &'static str)
    requires
        d < 10,
    ensures
        r@ =~= seq![digit_char(d as int)],
{
    proof {
        reveal_strlit("0");
        reveal_strlit("1");
        reveal_strlit("2");
        reveal_strlit("3");
        reveal_strlit("4");
        reveal_strlit("5");
        reveal_strlit("6");
        reveal_strlit("7");
        reveal_strlit("8");
        reveal_strlit("9");
    }
    if d == 0 {
        "0"
    } else if d == 1 {
        "1"
    } else if d == 2 {
        "2"
    } else if d == 3 {
        "3"
    } else if d == 4 {
        "4"
    } else if d == 5 {
        "5"
    } else if d == 6 {
        "6"
    } else if d == 7 {
        "7"
    } else if d == 8 {
        "8"
    } else {
        "9"
    }
}

/// The decimal digits of `n`, most significant first; the empty string for
/// zero.
fn dec_digits_string(n: u32) -> (r: String)
    ensures
        r@ =~= dec_digits(n as int),
    decreases n,
{
    if n == 0 {
        String::new()
    } else {
        let mut s = dec_digits_string(n / 10);
        s.append(digit_str(n % 10));
        proof {
            assert(s@ =~= dec_digits((n / 10) as int).push(digit_char((n % 10) as int)));
        }
        s
    }
}

/// The decimal rendering of `n`: digits, a leading `-` when negative, and
/// `0` for zero.
pub fn i32_to_string(n: i32) -> (r: String)
    ensures
        r@ =~= dec_str(n as int),
{
    proof {
        reveal_strlit("0");
        reveal_strlit("-");
    }
    if n == 0 {
        String::from_str("0")
    } else if n < 0 {
        let magnitude: u32 = (-(n as i64)) as u32;
        let mut s = String::from_str("-");
        let digits = dec_digits_string(magnitude);
        s.append(digits.as_str());
        s
    } else {
        dec_digits_string(n as u32)
    }
}

/// Parses a `#RRGGBB` or `#AARRGGBB` string into its four channels.
///
/// Succeeds exactly on well-formed color strings; six digits mean a fully
/// opaque color, eight digits supply the alpha channel first.  Any other
/// length, a missing `#`, or a non-hexadecimal digit yields `InvalidColor`.
pub fn hex_to_argb(color: &str) -> (r: Result<Argb, MyBarError>)
    ensures
        r is Ok <==> valid_hex_color(color@),
        r matches Ok(c) ==> {
            &&& c.a == spec_alpha(color@)
            &&& c.r == spec_red(color@)
            &&& c.g == spec_green(color@)
            &&& c.b == spec_blue(color@)
        },
        r matches Err(e) ==> e is InvalidColor,
{
    let len = color.unicode_len();
    if len != 7 && len != 9 {
        return Err(MyBarError::InvalidColor(String::from_str("invalid length")));
    }
    if color.get_char(0) != '#' {
        return Err(MyBarError::InvalidColor(String::from_str("must start with #")));
    }
    let has_alpha = len == 9;
    let first = hex_pair_to_byte(color, 1);
    let second = hex_pair_to_byte(color, 3);
    let third = hex_pair_to_byte(color, 5);
    if has_alpha {
        let fourth = hex_pair_to_byte(color, 7);
        match (first, second, third, fourth) {
            (Some(a), Some(r), Some(g), Some(b)) => Ok(Argb { a, r, g, b }),
            _ => Err(MyBarError::InvalidColor(String::from_str("invalid hex digit"))),
        }
    } else {
        match (first, second, third) {
            (Some(r), Some(g), Some(b)) => Ok(Argb { a: 255, r, g, b }),
            _ => Err(MyBarError::InvalidColor(String::from_str("invalid hex digit"))),
        }
    }
}

} // verus!
