//! The extension data record: an extensible record kind holding a clock
//! value and a variable trailing extension string.

use vstd::prelude::*;
use vstd::string::StringSliceAdditionalSpecFns;

use crate::extension::Extendable;
use crate::extension::Extension;
use crate::extension::get_extension;
use crate::extension::spec_decode_extension;
use crate::util::ParseError;
use crate::util::byte_len;
use crate::util::Time;
use crate::util::is_digit;
use crate::util::lemma_time_round_trip;
use crate::util::push_char;
use crate::util::spec_format_time;
use crate::util::spec_parse_time;
use crate::util::str_eq;

verus! {

broadcast use vstd::slice::axiom_spec_len;

/// The count of mandatory bytes before the extension string begins: the
/// one-byte tag plus the six-digit clock value, all ASCII, so the count in
/// characters is the same.
pub const K_BASE_LENGTH: usize = 7;

/// The mathematical content of an extension data record.
pub struct KRecordView {
    pub time: Time,
    pub extension_string: Seq<char>,
}

/// An extension data record.
///
/// Contains only a timestamp by default, but can be extended with a
/// declaration record's descriptors. The extension string borrows from the
/// line it was parsed from and must not outlive it.
#[derive(Clone, Copy, Debug, Eq)]
pub struct KRecord<'a> {
    pub time: Time,
    pub extension_string: &'a str,
}

impl<'a> View for KRecord<'a> {
    type V = KRecordView;

    open spec fn view(&self) -> KRecordView {
        KRecordView { time: self.time, extension_string: self.extension_string@ }
    }
}

impl<'a> PartialEq for KRecord<'a> {
    fn eq(&self, other: &KRecord<'a>) -> (r: bool) {
        self.time == other.time && str_eq(self.extension_string, other.extension_string)
    }
}

impl<'a> vstd::std_specs::cmp::PartialEqSpecImpl for KRecord<'a> {
    open spec fn obeys_eq_spec() -> bool {
        true
    }

    open spec fn eq_spec(&self, other: &KRecord<'a>) -> bool {
        self@ == other@
    }
}

/// What a line parses to as an extension data record: `SyntaxError` unless
/// strictly longer than the seven mandatory bytes, `NonASCIICharacters`
/// unless the whole line is 7-bit ASCII (checked before any byte-offset
/// slicing, and making byte and character offsets coincide from here on),
/// then the six characters after the tag as a clock value (any failure there
/// propagates unchanged), and the rest of the line verbatim as the extension
/// string. The leading tag is the caller's dispatch key and is not inspected
/// here.
pub open spec fn spec_parse_k(s: Seq<char>) -> Result<KRecordView, ParseError> {
    if byte_len(s) <= 7 {
        Err(ParseError::SyntaxError)
    } else if !vstd::utf8::is_ascii_chars(s) {
        Err(ParseError::NonASCIICharacters)
    } else {
        match spec_parse_time(s.subrange(1, 7)) {
            Ok(t) => Ok(KRecordView { time: t, extension_string: s.subrange(7, s.len() as int) }),
            Err(e) => Err(e),
        }
    }
}

/// The line an extension data record formats to: the tag, the canonical
/// six-digit clock text, then the extension string verbatim.
pub open spec fn spec_format_k(v: KRecordView) -> Seq<char> {
    seq!['K'] + spec_format_time(v.time) + v.extension_string
}

impl<'a> KRecord<'a> {
    /// A parsed record is well formed: the clock value is in range and the
    /// extension string is non-empty ASCII, so byte and character offsets
    /// coincide when descriptors are decoded against it.
    pub open spec fn wf(self) -> bool {
        &&& self.time.wf()
        &&& self.extension_string@.len() > 0
        &&& vstd::utf8::is_ascii_chars(self.extension_string@)
    }

    /// Parses one line as an extension data record. The caller's dispatch
    /// has already established the leading tag.
    pub fn parse(line: &'a str) -> (r: Result<KRecord<'a>, ParseError>)
        requires
            line@.len() > 0,
            line@[0] == 'K',
        ensures
            match r {
                Ok(rec) => spec_parse_k(line@) == Ok::<KRecordView, ParseError>(rec@) && rec.wf(),
                Err(e) => spec_parse_k(line@) == Err::<KRecordView, ParseError>(e),
            },
    {
        let bytes = line.as_bytes();
        let n = bytes.len();
        if n <= 7 {
            return Err(ParseError::SyntaxError);
        }
        if !line.is_ascii() {
            return Err(ParseError::NonASCIICharacters);
        }
        proof {
            assert(bytes@ == line.spec_bytes());
            vstd::utf8::is_ascii_chars_encode_utf8(line@);
            assert(line@.len() == n);
        }
        let time = match Time::parse(line.substring_ascii(1, 7)) {
            Ok(t) => t,
            Err(e) => {
                return Err(e);
            },
        };
        let extension_string = line.substring_ascii(7, n);
        Ok(KRecord { time, extension_string })
    }

    /// Formats the record back into one line. The result equals the parsed
    /// line whenever the time field was already in canonical zero-padded
    /// form, since formatting normalizes only the clock text.
    pub fn format(&self) -> (r: String)
        requires
            self.time.wf(),
        ensures
            r@ == spec_format_k(self@),
    {
        let mut s = String::new();
        push_char(&mut s, 'K');
        let time_text = self.time.format();
        s.append(time_text.as_str());
        s.append(self.extension_string);
        proof {
            assert(s@ =~= spec_format_k(self@));
        }
        s
    }

    /// Resolves one byte-range descriptor against this record's extension
    /// string through the generic decoder.
    pub fn get_extension(&'a self, extension: &Extension) -> (r: Result<&'a str, ParseError>)
        ensures
            match r {
                Ok(sub) => spec_decode_extension(
                    K_BASE_LENGTH as int,
                    self.extension_string@,
                    extension.start_byte as int,
                    extension.end_byte as int,
                ) == Ok::<Seq<char>, ParseError>(sub@),
                Err(e) => spec_decode_extension(
                    K_BASE_LENGTH as int,
                    self.extension_string@,
                    extension.start_byte as int,
                    extension.end_byte as int,
                ) == Err::<Seq<char>, ParseError>(e),
            },
    {
        get_extension(self, extension)
    }
}

/// The record round trip: every well-formed clock value together with a
/// non-empty ASCII extension string survives formatting and reparsing
/// unchanged. Reparsing a formatted line cannot meet the non-ASCII error,
/// since the tag, the clock digits and a well-formed extension string are
/// all 7-bit ASCII.
pub proof fn lemma_k_round_trip(v: KRecordView)
    requires
        v.time.wf(),
        v.extension_string.len() > 0,
        vstd::utf8::is_ascii_chars(v.extension_string),
    ensures
        spec_parse_k(spec_format_k(v)) == Ok::<KRecordView, ParseError>(v),
{
    let s = spec_format_k(v);
    lemma_time_round_trip(v.time);
    assert forall|i: int| 0 <= i < s.len() implies '\0' <= #[trigger] s[i] <= '\u{7f}' by {
        if 1 <= i < 7 {
            assert(s[i] == spec_format_time(v.time)[i - 1]);
            assert(is_digit(spec_format_time(v.time)[i - 1]));
        } else if i >= 7 {
            assert(s[i] == v.extension_string[i - 7]);
        }
    }
    assert(vstd::utf8::is_ascii_chars(s));
    vstd::utf8::is_ascii_chars_encode_utf8(s);
    assert(byte_len(s) == s.len());
    assert(s.subrange(1, 7) =~= spec_format_time(v.time));
    assert(s.subrange(7, s.len() as int) =~= v.extension_string);
}

impl<'a> Extendable for KRecord<'a> {
    open spec fn spec_base_length(&self) -> int {
        K_BASE_LENGTH as int
    }

    open spec fn spec_extension_string(&self) -> Seq<char> {
        self.extension_string@
    }

    fn base_length(&self) -> usize {
        K_BASE_LENGTH
    }

    fn extension_string(&self) -> &str {
        self.extension_string
    }
}

} // verus!
