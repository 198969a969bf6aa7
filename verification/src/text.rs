//! Text that simulators and flight plans hand over: fixed-width buffers cut
//! at the first NUL, trimmed, upper-cased, and replaced by a placeholder
//! where nothing is left.

use vstd::prelude::*;
use vstd::slice::slice_subrange;
use vstd::utf8::{decode_utf8, valid_utf8};

verus! {

/// Whether `char::is_whitespace` holds of a character, that is, whether it
/// has the Unicode property White_Space.
pub uninterp spec fn white_space(c: char) -> bool;

/// What `str::to_uppercase` makes of a text.
pub uninterp spec fn uppercase(text: Seq<char>) -> Seq<char>;

/// What `String::from_utf8_lossy` makes of a run of bytes.
pub uninterp spec fn lossy_text(bytes: Seq<u8>) -> Seq<char>;

/// `char::is_whitespace`: the answer is the character's White_Space property.
#[verifier::external_body]
fn char_is_whitespace(c: char) -> (answer: bool)
    ensures
        answer == white_space(c),
{
    c.is_whitespace()
}

/// `str::to_uppercase`: the upper-case equivalent of the text, which depends
/// on the text alone. Nothing is claimed of its length: one character may
/// become several.
#[verifier::external_body]
pub(crate) fn str_to_uppercase(text: &str) -> (upper: String)
    ensures
        upper@ == uppercase(text@),
{
    text.to_uppercase()
}

/// `String::from_utf8_lossy`: the decoded text, which depends on the bytes
/// alone. Bytes that are valid UTF-8 decode to the text they encode; the
/// outside function puts U+FFFD in place of each invalid sequence, which this
/// contract leaves to the name.
#[verifier::external_body]
fn string_from_utf8_lossy(bytes: &[u8]) -> (text: String)
    ensures
        text@ == lossy_text(bytes@),
        valid_utf8(bytes@) ==> text@ == decode_utf8(bytes@),
{
    String::from_utf8_lossy(bytes).into_owned()
}

/// The text without its leading white space.
pub open spec fn trim_start(text: Seq<char>) -> Seq<char>
    decreases text.len(),
{
    if text.len() > 0 && white_space(text[0]) {
        trim_start(text.drop_first())
    } else {
        text
    }
}

/// The text without its trailing white space.
pub open spec fn trim_end(text: Seq<char>) -> Seq<char>
    decreases text.len(),
{
    if text.len() > 0 && white_space(text.last()) {
        trim_end(text.drop_last())
    } else {
        text
    }
}

/// The text without leading and trailing white space.
pub open spec fn trimmed(text: Seq<char>) -> Seq<char> {
    trim_end(trim_start(text))
}

/// A text is blank when nothing is left of it after trimming.
pub open spec fn blank(text: Seq<char>) -> bool {
    trimmed(text).len() == 0
}

/// The first `count` characters of a text, or all of it where it is shorter.
pub open spec fn first_chars(text: Seq<char>, count: nat) -> Seq<char> {
    if text.len() <= count {
        text
    } else {
        text.subrange(0, count as int)
    }
}

/// The bytes before the first zero byte, or all of them where none is zero.
pub open spec fn until_nul(bytes: Seq<u8>) -> Seq<u8>
    decreases bytes.len(),
{
    if bytes.len() == 0 || bytes[0] == 0 {
        Seq::empty()
    } else {
        seq![bytes[0]] + until_nul(bytes.drop_first())
    }
}

/// The text of a NUL-terminated buffer: its bytes up to the first NUL,
/// decoded leniently and trimmed.
pub open spec fn c_string_text(bytes: Seq<u8>) -> Seq<char> {
    trimmed(lossy_text(until_nul(bytes)))
}

/// The identifier that a raw buffer spells: its text, upper-cased.
pub open spec fn identifier_text(bytes: Seq<u8>) -> Seq<char> {
    uppercase(c_string_text(bytes))
}

/// The callsign reported for a normalised text: the text itself, or the
/// placeholder where it is empty.
pub open spec fn callsign_or_placeholder(text: Seq<char>) -> Seq<char> {
    if text.len() == 0 {
        "UNKNOWN"@
    } else {
        text
    }
}

/// The aircraft type reported for a normalised text: its first four
/// characters, or the placeholder where it is empty.
pub open spec fn aircraft_or_placeholder(text: Seq<char>) -> Seq<char> {
    if text.len() == 0 {
        "UNKN"@
    } else {
        first_chars(text, 4)
    }
}

proof fn lemma_trim_start_skip(text: Seq<char>, start: int)
    requires
        0 <= start < text.len(),
        white_space(text[start]),
    ensures
        trim_start(text.skip(start)) == trim_start(text.skip(start + 1)),
{
    assert(text.skip(start).drop_first() =~= text.skip(start + 1));
}

proof fn lemma_trim_end_shrink(text: Seq<char>, start: int, end: int)
    requires
        0 <= start < end <= text.len(),
        white_space(text[end - 1]),
    ensures
        trim_end(text.subrange(start, end)) == trim_end(text.subrange(start, end - 1)),
{
    assert(text.subrange(start, end).drop_last() =~= text.subrange(start, end - 1));
}

/// Removes leading and trailing white space.
pub fn trim(text: &str) -> (inner: &str)
    ensures
        inner@ == trimmed(text@),
{
    let count: usize = text.unicode_len();
    let mut start: usize = 0;
    assert(text@.skip(0) =~= text@);
    while start < count && char_is_whitespace(text.get_char(start))
        invariant
            start <= count,
            count == text@.len(),
            trim_start(text@) == trim_start(text@.skip(start as int)),
        decreases count - start,
    {
        proof {
            lemma_trim_start_skip(text@, start as int);
        }
        start += 1;
    }
    assert(trim_start(text@) == text@.skip(start as int));
    assert(text@.skip(start as int) =~= text@.subrange(start as int, count as int));
    let mut end: usize = count;
    while end > start && char_is_whitespace(text.get_char(end - 1))
        invariant
            start <= end <= count,
            count == text@.len(),
            trimmed(text@) == trim_end(text@.subrange(start as int, end as int)),
        decreases end,
    {
        proof {
            lemma_trim_end_shrink(text@, start as int, end as int);
        }
        end -= 1;
    }
    text.substring_char(start, end)
}

/// Whether a text is empty or white space only.
pub fn is_blank(text: &str) -> (answer: bool)
    ensures
        answer == blank(text@),
{
    trim(text).unicode_len() == 0
}

/// The first `count` characters of a text as a new string.
pub fn take_chars(text: &str, count: usize) -> (head: String)
    ensures
        head@ == first_chars(text@, count as nat),
{
    let length: usize = text.unicode_len();
    if length <= count {
        text.to_owned()
    } else {
        text.substring_char(0, count).to_owned()
    }
}

/// The bytes of a buffer before its first zero byte.
pub fn c_string_bytes(bytes: &[u8]) -> (head: &[u8])
    ensures
        head@ == until_nul(bytes@),
{
    let mut end: usize = 0;
    assert(bytes@.skip(0) =~= bytes@);
    assert(bytes@.subrange(0, 0) =~= Seq::<u8>::empty());
    while end < bytes.len() && bytes[end] != 0
        invariant
            end <= bytes@.len(),
            until_nul(bytes@) == bytes@.subrange(0, end as int) + until_nul(
                bytes@.skip(end as int),
            ),
        decreases bytes@.len() - end,
    {
        proof {
            let rest = bytes@.skip(end as int);
            assert(rest.drop_first() =~= bytes@.skip(end + 1));
            assert(bytes@.subrange(0, end as int) + seq![rest[0]] =~= bytes@.subrange(
                0,
                end + 1,
            ));
        }
        end += 1;
    }
    assert(until_nul(bytes@.skip(end as int)) =~= Seq::<u8>::empty());
    assert(bytes@.subrange(0, end as int) + Seq::<u8>::empty() =~= bytes@.subrange(
        0,
        end as int,
    ));
    slice_subrange(bytes, 0, end)
}

/// Reads a NUL-terminated buffer as text: the bytes before the first NUL,
/// decoded leniently, without leading and trailing white space.
pub fn parse_c_string(b: &[u8]) -> (text: String)
    ensures
        text@ == c_string_text(b@),
{
    let decoded = string_from_utf8_lossy(c_string_bytes(b));
    trim(decoded.as_str()).to_owned()
}

/// Reads a raw buffer as an identifier: its text, upper-cased.
pub fn parse_identifier(bytes: &[u8]) -> (text: String)
    ensures
        text@ == identifier_text(bytes@),
{
    let plain = parse_c_string(bytes);
    str_to_uppercase(plain.as_str())
}

/// The callsign to report for a normalised text: `UNKNOWN` where it is empty.
pub fn callsign_or_unknown(text: String) -> (callsign: String)
    ensures
        callsign@ == callsign_or_placeholder(text@),
{
    if text.as_str().unicode_len() == 0 {
        "UNKNOWN".to_owned()
    } else {
        text
    }
}

/// The aircraft type to report for a normalised text: `UNKN` where it is
/// empty, else its first four characters.
pub fn aircraft_or_unknown(text: &str) -> (aircraft: String)
    ensures
        aircraft@ == aircraft_or_placeholder(text@),
{
    if text.unicode_len() == 0 {
        "UNKN".to_owned()
    } else {
        take_chars(text, 4)
    }
}

/// The character of a digit below sixteen, lower case from ten on.
pub open spec fn digit_text(digit: nat) -> Seq<char> {
    if digit == 0 {
        "0"@
    } else if digit == 1 {
        "1"@
    } else if digit == 2 {
        "2"@
    } else if digit == 3 {
        "3"@
    } else if digit == 4 {
        "4"@
    } else if digit == 5 {
        "5"@
    } else if digit == 6 {
        "6"@
    } else if digit == 7 {
        "7"@
    } else if digit == 8 {
        "8"@
    } else if digit == 9 {
        "9"@
    } else if digit == 10 {
        "a"@
    } else if digit == 11 {
        "b"@
    } else if digit == 12 {
        "c"@
    } else if digit == 13 {
        "d"@
    } else if digit == 14 {
        "e"@
    } else {
        "f"@
    }
}

/// A number written to a base from two to sixteen, most significant digit
/// first, without leading zeros.
pub open spec fn radix_text(value: nat, base: nat) -> Seq<char>
    decreases value,
{
    if base < 2 || value < base {
        digit_text(value)
    } else {
        proof {
            assert(value / base < value) by (nonlinear_arith)
                requires
                    base >= 2,
                    value >= base,
            ;
        }
        radix_text(value / base, base) + digit_text(value % base)
    }
}

/// A number in decimal.
pub open spec fn decimal_text(value: nat) -> Seq<char> {
    radix_text(value, 10)
}

/// A number in hexadecimal, lower case.
pub open spec fn hex_text(value: nat) -> Seq<char> {
    radix_text(value, 16)
}

/// A whole number in decimal, with a minus sign where it is negative.
pub open spec fn signed_decimal_text(value: int) -> Seq<char> {
    if value < 0 {
        "-"@ + decimal_text((-value) as nat)
    } else {
        decimal_text(value as nat)
    }
}

fn digit_str(digit: u64) -> (text: &'static str)
    requires
        digit < 16,
    ensures
        text@ == digit_text(digit as nat),
{
    if digit == 0 {
        "0"
    } else if digit == 1 {
        "1"
    } else if digit == 2 {
        "2"
    } else if digit == 3 {
        "3"
    } else if digit == 4 {
        "4"
    } else if digit == 5 {
        "5"
    } else if digit == 6 {
        "6"
    } else if digit == 7 {
        "7"
    } else if digit == 8 {
        "8"
    } else if digit == 9 {
        "9"
    } else if digit == 10 {
        "a"
    } else if digit == 11 {
        "b"
    } else if digit == 12 {
        "c"
    } else if digit == 13 {
        "d"
    } else if digit == 14 {
        "e"
    } else {
        "f"
    }
}

fn radix(value: u64, base: u64) -> (text: String)
    requires
        2 <= base <= 16,
    ensures
        text@ == radix_text(value as nat, base as nat),
    decreases value,
{
    if value < base {
        digit_str(value).to_owned()
    } else {
        assert(value / base < value) by (nonlinear_arith)
            requires
                base >= 2,
                value >= base,
        ;
        radix(value / base, base).concat(digit_str(value % base))
    }
}

/// Writes a number in decimal.
pub fn decimal(value: u64) -> (text: String)
    ensures
        text@ == decimal_text(value as nat),
{
    radix(value, 10)
}

/// Writes a number in hexadecimal, lower case.
pub fn hex(value: u64) -> (text: String)
    ensures
        text@ == hex_text(value as nat),
{
    radix(value, 16)
}

/// Writes a whole number in decimal, with a minus sign where it is negative.
pub fn signed_decimal(value: i64) -> (text: String)
    ensures
        text@ == signed_decimal_text(value as int),
{
    if value < 0 {
        let magnitude: u64 = if value == i64::MIN {
            0x8000_0000_0000_0000u64
        } else {
            (-value) as u64
        };
        "-".to_owned().concat(decimal(magnitude).as_str())
    } else {
        decimal(value as u64)
    }
}


/// Whether two texts are the same.
pub fn same_text(left: &str, right: &str) -> (answer: bool)
    ensures
        answer == (left@ == right@),
{
    left.to_owned() == right.to_owned()
}


/// Placeholder substitution: a reported callsign is never empty, and a
/// reported aircraft type has from one to four characters. An empty text
/// yields the placeholder; a text of at most four characters yields itself,
/// as callsign and as aircraft type; a longer one yields its first four as
/// aircraft type.
pub proof fn lemma_placeholders(text: Seq<char>)
    ensures
        callsign_or_placeholder(text).len() > 0,
        0 < aircraft_or_placeholder(text).len() <= 4,
        text.len() == 0 ==> callsign_or_placeholder(text) == "UNKNOWN"@ && aircraft_or_placeholder(
            text,
        ) == "UNKN"@,
        text.len() > 0 ==> callsign_or_placeholder(text) == text,
        0 < text.len() <= 4 ==> aircraft_or_placeholder(text) == text,
        text.len() > 4 ==> aircraft_or_placeholder(text) == text.subrange(0, 4),
{
    reveal_strlit("UNKNOWN");
    reveal_strlit("UNKN");
}


} // verus!
