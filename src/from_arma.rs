use vstd::prelude::*;

verus! {

/// A native type that parses itself from text handed over by the runtime.
pub trait FromArma: Sized {
    /// Whether `s` is well-formed text for this type.
    spec fn accepts(s: Seq<char>) -> bool;

    /// Whether `v` is what the well-formed text `s` stands for.
    spec fn parses_to(s: Seq<char>, v: Self) -> bool;

    /// Parses `s`, or describes why it is not text for this type.
    fn from_arma(s: String) -> (r: Result<Self, String>)
        ensures
            r is Ok <==> Self::accepts(s@),
            r matches Ok(v) ==> Self::parses_to(s@, v),
    ;
}

/// An ASCII decimal digit.
pub open spec fn is_digit(c: char) -> bool {
    '0' <= c <= '9'
}

/// One or more decimal digits.
/// An ASCII decimal digit.
pub open spec fn is_digits(s: Seq<char>) -> bool {
    s.len() > 0 && forall|i: int| 0 <= i < s.len() ==> is_digit(#[trigger] s[i])
}

/// The number that a run of decimal digits stands for.
pub open spec fn digits_value(s: Seq<char>) -> int
    decreases s.len(),
{
    if s.len() == 0 {
        0
    } else {
        digits_value(s.drop_last()) * 10 + (s.last() as int - '0' as int)
    }
}

/// The integer that `s` stands for when it is an optional `+` sign, or a
/// `-` sign where `signed`, followed by decimal digits.
pub open spec fn int_text(s: Seq<char>, signed: bool) -> Option<int> {
    if s.len() > 0 && s[0] == '+' {
        if is_digits(s.drop_first()) {
            Some(digits_value(s.drop_first()))
        } else {
            None
        }
    } else if s.len() > 0 && s[0] == '-' {
        if signed && is_digits(s.drop_first()) {
            Some(-digits_value(s.drop_first()))
        } else {
            None
        }
    } else if is_digits(s) {
        Some(digits_value(s))
    } else {
        None
    }
}

/// Integer text whose value lies in `lo..=hi`.
pub open spec fn int_in_range(s: Seq<char>, signed: bool, lo: int, hi: int) -> bool {
    int_text(s, signed) matches Some(v) && lo <= v <= hi
}

/// Relies on `<i8 as FromStr>::from_str`: it accepts exactly the integer text
/// whose value fits the type, and returns that value; its error is written
/// out with `to_string`.
#[verifier::external_body]
fn parse_i8(s: &str) -> (r: Result<i8, String>)
    ensures
        r is Ok <==> int_in_range(s@, true, -0x80, 0x7f),
        r matches Ok(v) ==> int_text(s@, true) == Some(v as int),
{
    match s.parse::<i8>() {
        Ok(v) => Ok(v),
        Err(e) => Err(e.to_string()),
    }
}

impl FromArma for i8 {
    open spec fn accepts(s: Seq<char>) -> bool {
        int_in_range(s, true, -0x80, 0x7f)
    }

    open spec fn parses_to(s: Seq<char>, v: i8) -> bool {
        int_text(s, true) == Some(v as int)
    }

    fn from_arma(s: String) -> (r: Result<i8, String>) {
        parse_i8(s.as_str())
    }
}

/// Relies on `<i16 as FromStr>::from_str`: it accepts exactly the integer text
/// whose value fits the type, and returns that value; its error is written
/// out with `to_string`.
#[verifier::external_body]
fn parse_i16(s: &str) -> (r: Result<i16, String>)
    ensures
        r is Ok <==> int_in_range(s@, true, -0x8000, 0x7fff),
        r matches Ok(v) ==> int_text(s@, true) == Some(v as int),
{
    match s.parse::<i16>() {
        Ok(v) => Ok(v),
        Err(e) => Err(e.to_string()),
    }
}

impl FromArma for i16 {
    open spec fn accepts(s: Seq<char>) -> bool {
        int_in_range(s, true, -0x8000, 0x7fff)
    }

    open spec fn parses_to(s: Seq<char>, v: i16) -> bool {
        int_text(s, true) == Some(v as int)
    }

    fn from_arma(s: String) -> (r: Result<i16, String>) {
        parse_i16(s.as_str())
    }
}

/// Relies on `<i32 as FromStr>::from_str`: it accepts exactly the integer text
/// whose value fits the type, and returns that value; its error is written
/// out with `to_string`.
#[verifier::external_body]
fn parse_i32(s: &str) -> (r: Result<i32, String>)
    ensures
        r is Ok <==> int_in_range(s@, true, -0x8000_0000, 0x7fff_ffff),
        r matches Ok(v) ==> int_text(s@, true) == Some(v as int),
{
    match s.parse::<i32>() {
        Ok(v) => Ok(v),
        Err(e) => Err(e.to_string()),
    }
}

impl FromArma for i32 {
    open spec fn accepts(s: Seq<char>) -> bool {
        int_in_range(s, true, -0x8000_0000, 0x7fff_ffff)
    }

    open spec fn parses_to(s: Seq<char>, v: i32) -> bool {
        int_text(s, true) == Some(v as int)
    }

    fn from_arma(s: String) -> (r: Result<i32, String>) {
        parse_i32(s.as_str())
    }
}

/// Relies on `<i64 as FromStr>::from_str`: it accepts exactly the integer text
/// whose value fits the type, and returns that value; its error is written
/// out with `to_string`.
#[verifier::external_body]
fn parse_i64(s: &str) -> (r: Result<i64, String>)
    ensures
        r is Ok <==> int_in_range(s@, true, -0x8000_0000_0000_0000, 0x7fff_ffff_ffff_ffff),
        r matches Ok(v) ==> int_text(s@, true) == Some(v as int),
{
    match s.parse::<i64>() {
        Ok(v) => Ok(v),
        Err(e) => Err(e.to_string()),
    }
}

impl FromArma for i64 {
    open spec fn accepts(s: Seq<char>) -> bool {
        int_in_range(s, true, -0x8000_0000_0000_0000, 0x7fff_ffff_ffff_ffff)
    }

    open spec fn parses_to(s: Seq<char>, v: i64) -> bool {
        int_text(s, true) == Some(v as int)
    }

    fn from_arma(s: String) -> (r: Result<i64, String>) {
        parse_i64(s.as_str())
    }
}

/// Relies on `<u8 as FromStr>::from_str`: it accepts exactly the integer text
/// whose value fits the type, and returns that value; its error is written
/// out with `to_string`.
#[verifier::external_body]
fn parse_u8(s: &str) -> (r: Result<u8, String>)
    ensures
        r is Ok <==> int_in_range(s@, false, 0, 0xff),
        r matches Ok(v) ==> int_text(s@, false) == Some(v as int),
{
    match s.parse::<u8>() {
        Ok(v) => Ok(v),
        Err(e) => Err(e.to_string()),
    }
}

impl FromArma for u8 {
    open spec fn accepts(s: Seq<char>) -> bool {
        int_in_range(s, false, 0, 0xff)
    }

    open spec fn parses_to(s: Seq<char>, v: u8) -> bool {
        int_text(s, false) == Some(v as int)
    }

    fn from_arma(s: String) -> (r: Result<u8, String>) {
        parse_u8(s.as_str())
    }
}

/// Relies on `<u16 as FromStr>::from_str`: it accepts exactly the integer text
/// whose value fits the type, and returns that value; its error is written
/// out with `to_string`.
#[verifier::external_body]
fn parse_u16(s: &str) -> (r: Result<u16, String>)
    ensures
        r is Ok <==> int_in_range(s@, false, 0, 0xffff),
        r matches Ok(v) ==> int_text(s@, false) == Some(v as int),
{
    match s.parse::<u16>() {
        Ok(v) => Ok(v),
        Err(e) => Err(e.to_string()),
    }
}

impl FromArma for u16 {
    open spec fn accepts(s: Seq<char>) -> bool {
        int_in_range(s, false, 0, 0xffff)
    }

    open spec fn parses_to(s: Seq<char>, v: u16) -> bool {
        int_text(s, false) == Some(v as int)
    }

    fn from_arma(s: String) -> (r: Result<u16, String>) {
        parse_u16(s.as_str())
    }
}

/// Relies on `<u32 as FromStr>::from_str`: it accepts exactly the integer text
/// whose value fits the type, and returns that value; its error is written
/// out with `to_string`.
#[verifier::external_body]
fn parse_u32(s: &str) -> (r: Result<u32, String>)
    ensures
        r is Ok <==> int_in_range(s@, false, 0, 0xffff_ffff),
        r matches Ok(v) ==> int_text(s@, false) == Some(v as int),
{
    match s.parse::<u32>() {
        Ok(v) => Ok(v),
        Err(e) => Err(e.to_string()),
    }
}

impl FromArma for u32 {
    open spec fn accepts(s: Seq<char>) -> bool {
        int_in_range(s, false, 0, 0xffff_ffff)
    }

    open spec fn parses_to(s: Seq<char>, v: u32) -> bool {
        int_text(s, false) == Some(v as int)
    }

    fn from_arma(s: String) -> (r: Result<u32, String>) {
        parse_u32(s.as_str())
    }
}

/// Relies on `<u64 as FromStr>::from_str`: it accepts exactly the integer text
/// whose value fits the type, and returns that value; its error is written
/// out with `to_string`.
#[verifier::external_body]
fn parse_u64(s: &str) -> (r: Result<u64, String>)
    ensures
        r is Ok <==> int_in_range(s@, false, 0, 0xffff_ffff_ffff_ffff),
        r matches Ok(v) ==> int_text(s@, false) == Some(v as int),
{
    match s.parse::<u64>() {
        Ok(v) => Ok(v),
        Err(e) => Err(e.to_string()),
    }
}

impl FromArma for u64 {
    open spec fn accepts(s: Seq<char>) -> bool {
        int_in_range(s, false, 0, 0xffff_ffff_ffff_ffff)
    }

    open spec fn parses_to(s: Seq<char>, v: u64) -> bool {
        int_text(s, false) == Some(v as int)
    }

    fn from_arma(s: String) -> (r: Result<u64, String>) {
        parse_u64(s.as_str())
    }
}

/// Relies on `<bool as FromStr>::from_str`: it accepts exactly `true` and
/// `false`; its error is written out with `to_string`.
#[verifier::external_body]
fn parse_bool(s: &str) -> (r: Result<bool, String>)
    ensures
        r is Ok <==> (s@ == "true"@ || s@ == "false"@),
        r matches Ok(v) ==> (v <==> s@ == "true"@),
{
    match s.parse::<bool>() {
        Ok(v) => Ok(v),
        Err(e) => Err(e.to_string()),
    }
}

impl FromArma for bool {
    open spec fn accepts(s: Seq<char>) -> bool {
        s == "true"@ || s == "false"@
    }

    open spec fn parses_to(s: Seq<char>, v: bool) -> bool {
        v <==> s == "true"@
    }

    fn from_arma(s: String) -> (r: Result<bool, String>) {
        parse_bool(s.as_str())
    }
}

impl FromArma for String {
    open spec fn accepts(s: Seq<char>) -> bool {
        true
    }

    open spec fn parses_to(s: Seq<char>, v: String) -> bool {
        v@ == s
    }

    fn from_arma(s: String) -> (r: Result<String, String>) {
        Ok(s)
    }
}

} // verus!
