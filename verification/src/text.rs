//! Text handling shared by the metadata readers: UTF-8 decoding, the
//! whitespace trimming and decimal integer parsing that std performs, and
//! facts about character boundaries in UTF-8 bytes.
use vstd::prelude::*;
use vstd::utf8::{
    decode_utf8, is_char_boundary, is_leading_byte_width_1, length_of_first_scalar,
    pop_first_scalar, valid_utf8,
};

verus! {

/// Decode UTF-8 bytes into an owned `String` (via `core::str::from_utf8`).
///
/// Claims what the std documentation states: the conversion succeeds
/// exactly when the bytes are valid UTF-8, and then the string holds the
/// characters those bytes encode.
#[verifier::external_body]
pub(crate) fn utf8_to_string(bytes: &[u8]) -> (r: Option<String>)
    ensures
        r is Some <==> valid_utf8(bytes@),
        r matches Some(s) ==> s@ == decode_utf8(bytes@),
{
    core::str::from_utf8(bytes).ok().map(String::from)
}

/// The Unicode `White_Space` property, which `str::trim` strips.
pub open spec fn is_white_space(c: char) -> bool {
    let u = c as u32;
    ||| 0x09 <= u <= 0x0D
    ||| u == 0x20
    ||| u == 0x85
    ||| u == 0xA0
    ||| u == 0x1680
    ||| 0x2000 <= u <= 0x200A
    ||| u == 0x2028
    ||| u == 0x2029
    ||| u == 0x202F
    ||| u == 0x205F
    ||| u == 0x3000
}

/// `s` without its leading whitespace.
pub open spec fn trim_start_ws(s: Seq<char>) -> Seq<char>
    decreases s.len(),
{
    if s.len() > 0 && is_white_space(s[0]) {
        trim_start_ws(s.drop_first())
    } else {
        s
    }
}

/// `s` without its trailing whitespace.
pub open spec fn trim_end_ws(s: Seq<char>) -> Seq<char>
    decreases s.len(),
{
    if s.len() > 0 && is_white_space(s.last()) {
        trim_end_ws(s.drop_last())
    } else {
        s
    }
}

/// `s` without leading and trailing whitespace.
pub open spec fn trim_ws(s: Seq<char>) -> Seq<char> {
    trim_end_ws(trim_start_ws(s))
}

/// Remove leading and trailing whitespace (via `str::trim`).
///
/// Claims what the std documentation states: leading and trailing
/// characters with the Unicode `White_Space` property are removed.
#[verifier::external_body]
pub(crate) fn str_trim(s: &str) -> (r: &str)
    ensures
        r@ == trim_ws(s@),
{
    s.trim()
}

/// `s` without its trailing NUL characters.
pub open spec fn trim_end_nul(s: Seq<char>) -> Seq<char>
    decreases s.len(),
{
    if s.len() > 0 && s.last() == '\0' {
        trim_end_nul(s.drop_last())
    } else {
        s
    }
}

/// Remove trailing NUL characters (via `str::trim_end_matches`).
///
/// Claims what the std documentation states: repeated trailing matches of
/// the pattern are removed, here the character `'\0'`.
#[verifier::external_body]
pub(crate) fn str_trim_end_nul(s: &str) -> (r: &str)
    ensures
        r@ == trim_end_nul(s@),
{
    s.trim_end_matches('\0')
}

/// The value of a non-empty run of ASCII decimal digits.
pub open spec fn decimal_value(s: Seq<char>) -> Option<int>
    decreases s.len(),
{
    if s.len() == 0 {
        None
    } else if !('0' <= s.last() && s.last() <= '9') {
        None
    } else {
        let d = (s.last() as u32 - '0' as u32) as int;
        if s.len() == 1 {
            Some(d)
        } else {
            match decimal_value(s.drop_last()) {
                Some(v) => Some(v * 10 + d),
                None => None,
            }
        }
    }
}

/// The integer that std's `FromStr` reads from `s`: an optional `+` (or,
/// for signed types, `-`) followed by one or more ASCII digits, within
/// `[min, max]`.
pub open spec fn parse_integer(s: Seq<char>, signed: bool, min: int, max: int) -> Option<int> {
    let neg = signed && s.len() > 0 && s[0] == '-';
    let rest = if s.len() > 0 && (s[0] == '+' || neg) {
        s.drop_first()
    } else {
        s
    };
    match decimal_value(rest) {
        Some(v) => {
            let x = if neg {
                -v
            } else {
                v
            };
            if min <= x <= max {
                Some(x)
            } else {
                None
            }
        },
        None => None,
    }
}

/// Parse a decimal `i32` (via `str::parse`).
///
/// Claims what the std documentation states for `from_str`: an optional
/// sign followed only by digits, rejected when out of range.
#[verifier::external_body]
pub(crate) fn parse_i32(s: &str) -> (r: Option<i32>)
    ensures
        match r {
            Some(v) => parse_integer(s@, true, i32::MIN as int, i32::MAX as int) == Some(v as int),
            None => parse_integer(s@, true, i32::MIN as int, i32::MAX as int) is None,
        },
{
    s.parse::<i32>().ok()
}

/// Parse a decimal `u32` (via `str::parse`).
///
/// Claims what the std documentation states for `from_str`: an optional
/// `+` followed only by digits, rejected when out of range.
#[verifier::external_body]
pub(crate) fn parse_u32(s: &str) -> (r: Option<u32>)
    ensures
        match r {
            Some(v) => parse_integer(s@, false, 0, u32::MAX as int) == Some(v as int),
            None => parse_integer(s@, false, 0, u32::MAX as int) is None,
        },
{
    s.parse::<u32>().ok()
}

/// Parse a decimal `u16` (via `str::parse`).
///
/// Claims what the std documentation states for `from_str`: an optional
/// `+` followed only by digits, rejected when out of range.
#[verifier::external_body]
pub(crate) fn parse_u16(s: &str) -> (r: Option<u16>)
    ensures
        match r {
            Some(v) => parse_integer(s@, false, 0, u16::MAX as int) == Some(v as int),
            None => parse_integer(s@, false, 0, u16::MAX as int) is None,
        },
{
    s.parse::<u16>().ok()
}

/// In valid UTF-8, the index right after a one-byte (ASCII) character that
/// starts at a character boundary is a character boundary too.
pub proof fn lemma_ascii_next_boundary(b: Seq<u8>, i: int)
    requires
        valid_utf8(b),
        0 <= i < b.len(),
        is_char_boundary(b, i),
        is_leading_byte_width_1(b[i]),
    ensures
        is_char_boundary(b, i + 1),
    decreases b.len(),
{
    reveal_with_fuel(is_char_boundary, 2);
    let l = length_of_first_scalar(b);
    let p = pop_first_scalar(b);
    assert(1 <= l <= b.len());
    assert(p.len() == b.len() - l);
    if i == 0 {
        assert(l == 1);
    } else {
        assert(is_char_boundary(p, i - l));
        assert(p[i - l] == b[i]);
        lemma_ascii_next_boundary(p, i - l);
    }
}

/// The bytes of valid UTF-8 between two positions that each hold an ASCII
/// byte — just after the first and up to the second — are valid UTF-8.
pub proof fn lemma_valid_between_ascii(b: Seq<u8>, i: int, j: int)
    requires
        valid_utf8(b),
        0 <= i < j < b.len(),
        is_leading_byte_width_1(b[i]),
        is_leading_byte_width_1(b[j]),
    ensures
        valid_utf8(b.subrange(i + 1, j)),
{
    vstd::utf8::is_char_boundary_iff_is_leading_byte(b, i);
    lemma_ascii_next_boundary(b, i);
    vstd::utf8::valid_utf8_split(b, i + 1);
    let s = b.subrange(i + 1, b.len() as int);
    assert(s[j - i - 1] == b[j]);
    vstd::utf8::is_char_boundary_iff_is_leading_byte(s, j - i - 1);
    vstd::utf8::valid_utf8_split(s, j - i - 1);
    assert(s.subrange(0, j - i - 1) =~= b.subrange(i + 1, j));
}

/// The text that lossy UTF-8 decoding gives for `bytes`: the characters
/// they encode, with each invalid sequence replaced by U+FFFD.
pub uninterp spec fn utf8_lossy(bytes: Seq<u8>) -> Seq<char>;

/// Decode bytes as UTF-8, replacing invalid sequences (via
/// `String::from_utf8_lossy`).
///
/// Claims what the std documentation states: the result is a function of
/// the bytes, and for valid UTF-8 it is exactly the text they encode. What
/// the replacement does to invalid input is not stated.
#[verifier::external_body]
pub(crate) fn utf8_to_string_lossy(bytes: &[u8]) -> (r: String)
    ensures
        r@ == utf8_lossy(bytes@),
        valid_utf8(bytes@) ==> r@ == decode_utf8(bytes@),
{
    String::from_utf8_lossy(bytes).into_owned()
}

/// The bytes of valid UTF-8 after a position that holds an ASCII byte are
/// valid UTF-8.
pub proof fn lemma_valid_after_ascii(b: Seq<u8>, i: int)
    requires
        valid_utf8(b),
        0 <= i < b.len(),
        is_leading_byte_width_1(b[i]),
    ensures
        valid_utf8(b.subrange(i + 1, b.len() as int)),
{
    vstd::utf8::is_char_boundary_iff_is_leading_byte(b, i);
    lemma_ascii_next_boundary(b, i);
    vstd::utf8::valid_utf8_split(b, i + 1);
}

/// Every character of a run that has a decimal value is a digit.
pub proof fn lemma_decimal_digits(s: Seq<char>)
    ensures
        decimal_value(s) is Some ==> forall|i: int| 0 <= i < s.len() ==> '0' <= #[trigger] s[i] <= '9',
    decreases s.len(),
{
    if s.len() > 1 {
        lemma_decimal_digits(s.drop_last());
        if decimal_value(s) is Some {
            assert forall|i: int| 0 <= i < s.len() implies '0' <= #[trigger] s[i] <= '9' by {
                if i < s.len() - 1 {
                    assert(s[i] == s.drop_last()[i]);
                }
            }
        }
    }
}

/// Text holding a character outside ASCII is no integer.
pub proof fn lemma_parse_integer_non_ascii(s: Seq<char>, k: int, signed: bool, min: int, max: int)
    requires
        0 <= k < s.len(),
        s[k] > '\u{7f}',
    ensures
        parse_integer(s, signed, min, max) is None,
{
    let neg = signed && s.len() > 0 && s[0] == '-';
    let rest = if s.len() > 0 && (s[0] == '+' || neg) {
        s.drop_first()
    } else {
        s
    };
    lemma_decimal_digits(rest);
    if s.len() > 0 && (s[0] == '+' || neg) {
        assert(k > 0);
        assert(rest[k - 1] == s[k]);
    } else {
        assert(rest[k] == s[k]);
    }
}

/// The text of an optional string.
pub open spec fn opt_text(o: Option<String>) -> Option<Seq<char>> {
    match o {
        Some(s) => Some(s@),
        None => None,
    }
}

/// An optional integer as a mathematical integer.
pub open spec fn opt_int<T: Integer>(o: Option<T>) -> Option<int> {
    match o {
        Some(v) => Some(v as int),
        None => None,
    }
}

} // verus!
