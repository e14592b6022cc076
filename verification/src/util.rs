//! Shared error type and the fixed-width clock-value codec.

use vstd::prelude::*;

verus! {

/// The one error type every fallible parse or decode operation returns.
#[derive(Clone, Copy, Debug, PartialEq, Eq, Structural)]
pub enum ParseError {
    /// Structural violation: wrong total length, invalid field character,
    /// malformed digits or field code.
    SyntaxError,
    /// A value-level violation inside well-formed syntax: an hour, minute or
    /// second outside its range, or an extension descriptor whose byte range
    /// falls outside the extension string.
    OutOfRange,
    /// The line holds a byte outside the 7-bit ASCII range, detected before
    /// any byte-offset slicing is attempted.
    NonASCIICharacters,
}

/// True when `c` is one of the ten ASCII digits.
pub open spec fn is_digit(c: char) -> bool {
    48 <= c as int && c as int <= 57
}

/// The numeric value of an ASCII digit character.
pub open spec fn digit_val(c: char) -> int {
    c as int - 48
}

/// The ASCII digit character for a value between 0 and 9.
pub open spec fn digit_char(d: int) -> char {
    ((48 + d) as u8) as char
}

/// The length in bytes of a character sequence under UTF-8. The format
/// counts field widths and total lengths in bytes, so every length gate in
/// the parsers is stated over this measure.
pub open spec fn byte_len(s: Seq<char>) -> int {
    vstd::utf8::encode_utf8(s).len() as int
}

/// UTF-8 encoding distributes over concatenation.
pub proof fn lemma_encode_utf8_concat(a: Seq<char>, b: Seq<char>)
    ensures
        vstd::utf8::encode_utf8(a + b) == vstd::utf8::encode_utf8(a) + vstd::utf8::encode_utf8(b),
    decreases a.len(),
{
    if a.len() == 0 {
        assert(a + b =~= b);
        assert(vstd::utf8::encode_utf8(a) + vstd::utf8::encode_utf8(b) =~= vstd::utf8::encode_utf8(
            b,
        ));
    } else {
        lemma_encode_utf8_concat(a.drop_first(), b);
        assert((a + b).drop_first() =~= a.drop_first() + b);
        assert((a + b)[0] == a[0]);
        assert(vstd::utf8::encode_utf8(a + b) =~= vstd::utf8::encode_utf8(a)
            + vstd::utf8::encode_utf8(b));
    }
}

/// An ASCII character encodes to a single byte.
pub proof fn lemma_encode_scalar_ascii(c: char)
    requires
        c <= '\u{7f}',
    ensures
        vstd::utf8::encode_scalar(c as u32).len() == 1,
{
    assert(vstd::utf8::has_width_1_encoding(c as u32));
}

/// A sequence that starts with an ASCII character encodes to exactly one
/// byte more than its tail.
pub proof fn lemma_byte_len_ascii_head(s: Seq<char>)
    requires
        s.len() >= 1,
        s[0] <= '\u{7f}',
    ensures
        byte_len(s) == 1 + byte_len(s.drop_first()),
{
    lemma_encode_scalar_ascii(s[0]);
    assert(vstd::utf8::encode_utf8(s) == vstd::utf8::encode_scalar(s[0] as u32)
        + vstd::utf8::encode_utf8(s.drop_first()));
}

/// True when every character of `s` is an ASCII digit.
pub open spec fn all_digits(s: Seq<char>) -> bool {
    forall|i: int| 0 <= i < s.len() ==> is_digit(#[trigger] s[i])
}

/// The value of the two-digit field starting at position `i` of `s`.
pub open spec fn field_val(s: Seq<char>, i: int) -> int {
    10 * digit_val(s[i]) + digit_val(s[i + 1])
}

/// A clock value: hour, minute and second, with no date and no timezone.
#[derive(Clone, Copy, Debug, PartialEq, Eq, Structural, Hash)]
pub struct Time {
    pub hours: u8,
    pub minutes: u8,
    pub seconds: u8,
}

/// What a six-character `HHMMSS` text parses to: `SyntaxError` unless it is
/// exactly six ASCII digits, `OutOfRange` when a component leaves its range,
/// the clock value otherwise.
pub open spec fn spec_parse_time(s: Seq<char>) -> Result<Time, ParseError> {
    if s.len() != 6 || !all_digits(s) {
        Err(ParseError::SyntaxError)
    } else if field_val(s, 0) > 23 || field_val(s, 2) > 59 || field_val(s, 4) > 59 {
        Err(ParseError::OutOfRange)
    } else {
        Ok(Time {
            hours: field_val(s, 0) as u8,
            minutes: field_val(s, 2) as u8,
            seconds: field_val(s, 4) as u8,
        })
    }
}

/// The canonical six-digit zero-padded `HHMMSS` text of a clock value.
pub open spec fn spec_format_time(t: Time) -> Seq<char> {
    seq![
        digit_char(t.hours as int / 10),
        digit_char(t.hours as int % 10),
        digit_char(t.minutes as int / 10),
        digit_char(t.minutes as int % 10),
        digit_char(t.seconds as int / 10),
        digit_char(t.seconds as int % 10),
    ]
}

/// Relies on String::push: appends one character at the end of the string.
#[verifier::external_body]
pub(crate) fn push_char(s: &mut String, c: char)
    ensures
        final(s)@ == old(s)@.push(c),
{
    s.push(c);
}

/// Appends the single ASCII digit for `d` at the end of `s`.
fn push_digit(s: &mut String, d: u8)
    requires
        d < 10,
    ensures
        final(s)@ == old(s)@.push(digit_char(d as int)),
{
    push_char(s, (48 + d) as char);
}

impl Time {
    /// A clock value is well formed when each component is inside its range.
    pub open spec fn wf(self) -> bool {
        self.hours < 24 && self.minutes < 60 && self.seconds < 60
    }

    /// Builds a clock value from components already inside their ranges.
    pub fn from_hms(hours: u8, minutes: u8, seconds: u8) -> (r: Time)
        requires
            hours < 24,
            minutes < 60,
            seconds < 60,
        ensures
            r == (Time { hours, minutes, seconds }),
            r.wf(),
    {
        Time { hours, minutes, seconds }
    }

    /// Parses a six-character `HHMMSS` text into a clock value.
    pub fn parse(text: &str) -> (r: Result<Time, ParseError>)
        ensures
            r == spec_parse_time(text@),
            r matches Ok(t) ==> t.wf(),
    {
        let n: usize = text.unicode_len();
        if n != 6 {
            return Err(ParseError::SyntaxError);
        }
        let mut i: usize = 0;
        while i < 6
            invariant
                text@.len() == 6,
                i <= 6,
                forall|j: int| 0 <= j < i ==> is_digit(#[trigger] text@[j]),
            decreases 6 - i,
        {
            let u = text.get_char(i) as u32;
            if u < 48 || u > 57 {
                return Err(ParseError::SyntaxError);
            }
            i += 1;
        }
        let hours = two_digit_field(text, 0);
        let minutes = two_digit_field(text, 2);
        let seconds = two_digit_field(text, 4);
        if hours > 23 || minutes > 59 || seconds > 59 {
            return Err(ParseError::OutOfRange);
        }
        Ok(Time { hours, minutes, seconds })
    }

    /// Formats a clock value as its canonical six-digit zero-padded text.
    pub fn format(&self) -> (r: String)
        requires
            self.wf(),
        ensures
            r@ == spec_format_time(*self),
            r@.len() == 6,
            all_digits(r@),
    {
        let mut s = String::new();
        push_digit(&mut s, self.hours / 10);
        push_digit(&mut s, self.hours % 10);
        push_digit(&mut s, self.minutes / 10);
        push_digit(&mut s, self.minutes % 10);
        push_digit(&mut s, self.seconds / 10);
        push_digit(&mut s, self.seconds % 10);
        proof {
            assert(s@ =~= spec_format_time(*self));
        }
        s
    }
}

/// Compares two string slices character by character.
pub(crate) fn str_eq(a: &str, b: &str) -> (r: bool)
    ensures
        r == (a@ == b@),
{
    let na = a.unicode_len();
    let nb = b.unicode_len();
    if na != nb {
        return false;
    }
    let mut i: usize = 0;
    while i < na
        invariant
            na == a@.len(),
            na == b@.len(),
            i <= na,
            forall|j: int| 0 <= j < i ==> a@[j] == b@[j],
        decreases na - i,
    {
        if a.get_char(i) != b.get_char(i) {
            return false;
        }
        i += 1;
    }
    proof {
        assert(a@ =~= b@);
    }
    true
}

/// Reads the two-digit field starting at position `i` of a digit text.
fn two_digit_field(text: &str, i: usize) -> (r: u8)
    requires
        text@.len() == 6,
        i + 2 <= 6,
        is_digit(text@[i as int]),
        is_digit(text@[i as int + 1]),
    ensures
        r as int == field_val(text@, i as int),
{
    let d0 = text.get_char(i) as u32 - 48;
    let d1 = text.get_char(i + 1) as u32 - 48;
    (10 * d0 + d1) as u8
}

/// The codec round trip: every well-formed clock value survives formatting
/// and reparsing unchanged, and its formatted text is six ASCII digits.
pub proof fn lemma_time_round_trip(t: Time)
    requires
        t.wf(),
    ensures
        spec_format_time(t).len() == 6,
        all_digits(spec_format_time(t)),
        spec_parse_time(spec_format_time(t)) == Ok::<Time, ParseError>(t),
{
    let s = spec_format_time(t);
    assert(all_digits(s));
    assert(field_val(s, 0) == t.hours as int);
    assert(field_val(s, 2) == t.minutes as int);
    assert(field_val(s, 4) == t.seconds as int);
}

} // verus!

