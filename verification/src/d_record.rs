//! The differential-GPS record: a non-extensible record kind holding one
//! enumerated qualifier and a fixed-width station identifier.

use vstd::prelude::*;

use vstd::string::StringSliceAdditionalSpecFns;

use crate::util::ParseError;
use crate::util::byte_len;
use crate::util::lemma_byte_len_ascii_head;
use crate::util::lemma_encode_utf8_concat;
use crate::util::push_char;
use crate::util::str_eq;

verus! {

broadcast use vstd::slice::axiom_spec_len;

/// The two legal GPS fix qualifiers, one per legal single-character code.
#[derive(Clone, Copy, Debug, PartialEq, Eq, Structural)]
pub enum GpsQualifier {
    Gps,
    DGps,
}

/// The single-character code a qualifier is written as on the line.
pub open spec fn qualifier_char(q: GpsQualifier) -> char {
    match q {
        GpsQualifier::Gps => '1',
        GpsQualifier::DGps => '2',
    }
}

/// The mathematical content of a differential-GPS record.
pub struct DRecordView {
    pub qualifier: GpsQualifier,
    pub station_id: Seq<char>,
}

/// Differential GPS record - indicates that Differential GPS is being used.
///
/// The station identifier borrows from the line it was parsed from and must
/// not outlive it.
#[derive(Clone, Copy, Debug, Eq)]
pub struct DRecord<'a> {
    pub qualifier: GpsQualifier,
    pub station_id: &'a str,
}

impl<'a> View for DRecord<'a> {
    type V = DRecordView;

    open spec fn view(&self) -> DRecordView {
        DRecordView { qualifier: self.qualifier, station_id: self.station_id@ }
    }
}

impl<'a> PartialEq for DRecord<'a> {
    fn eq(&self, other: &DRecord<'a>) -> (r: bool) {
        self.qualifier == other.qualifier && str_eq(self.station_id, other.station_id)
    }
}

impl<'a> vstd::std_specs::cmp::PartialEqSpecImpl for DRecord<'a> {
    open spec fn obeys_eq_spec() -> bool {
        true
    }

    open spec fn eq_spec(&self, other: &DRecord<'a>) -> bool {
        self@ == other@
    }
}

/// What a line parses to as a differential-GPS record: `SyntaxError` unless
/// it is exactly six bytes whose second is one of the two legal qualifier
/// codes; the bytes after the qualifier are the station identifier, taken
/// verbatim with no further validation. The leading tag is the caller's
/// dispatch key and is not inspected here; with a one-byte tag in front, the
/// line's second byte is the second character's leading byte, so it equals a
/// qualifier code exactly when the second character does.
pub open spec fn spec_parse_d(s: Seq<char>) -> Result<DRecordView, ParseError> {
    if byte_len(s) != 6 {
        Err(ParseError::SyntaxError)
    } else if s[1] == '1' {
        Ok(DRecordView { qualifier: GpsQualifier::Gps, station_id: s.subrange(2, s.len() as int) })
    } else if s[1] == '2' {
        Ok(DRecordView { qualifier: GpsQualifier::DGps, station_id: s.subrange(2, s.len() as int) })
    } else {
        Err(ParseError::SyntaxError)
    }
}

/// The line a differential-GPS record formats to: the tag, the qualifier's
/// code, then the station identifier verbatim.
pub open spec fn spec_format_d(v: DRecordView) -> Seq<char> {
    seq!['D', qualifier_char(v.qualifier)] + v.station_id
}

impl<'a> DRecord<'a> {
    /// Parses one line as a differential-GPS record. The caller's dispatch
    /// has already established the leading tag.
    pub fn parse(line: &'a str) -> (r: Result<DRecord<'a>, ParseError>)
        requires
            byte_len(line@) == 6 ==> line@[0] == 'D',
        ensures
            match r {
                Ok(rec) => spec_parse_d(line@) == Ok::<DRecordView, ParseError>(rec@),
                Err(e) => spec_parse_d(line@) == Err::<DRecordView, ParseError>(e),
            },
    {
        let bytes = line.as_bytes();
        if bytes.len() != 6 {
            return Err(ParseError::SyntaxError);
        }
        proof {
            let s = line@;
            assert(bytes@ == line.spec_bytes());
            assert(byte_len(s) == 6);
            assert(s.len() >= 1) by {
                if s.len() == 0 {
                    assert(vstd::utf8::encode_utf8(s).len() == 0);
                }
            }
            assert(s[0] == 'D');
            assert('D' <= '\u{7f}');
            lemma_byte_len_ascii_head(s);
            assert(s.len() >= 2) by {
                if s.len() == 1 {
                    assert(s.drop_first().len() == 0);
                    assert(vstd::utf8::encode_utf8(s.drop_first()).len() == 0);
                }
            }
        }
        let qualifier = match line.get_char(1) {
            '1' => GpsQualifier::Gps,
            '2' => GpsQualifier::DGps,
            _ => {
                return Err(ParseError::SyntaxError);
            },
        };
        let n = line.unicode_len();
        let station_id = line.substring_char(2, n);
        Ok(DRecord { qualifier, station_id })
    }

    /// Formats the record back into one line: the tag, the qualifier's
    /// code, then the station identifier verbatim.
    pub fn format(&self) -> (r: String)
        ensures
            r@ == spec_format_d(self@),
    {
        let mut s = String::new();
        push_char(&mut s, 'D');
        let code = match self.qualifier {
            GpsQualifier::Gps => '1',
            GpsQualifier::DGps => '2',
        };
        push_char(&mut s, code);
        s.append(self.station_id);
        proof {
            assert(s@ =~= spec_format_d(self@));
        }
        s
    }
}

/// The record round trip: every qualifier together with a four-byte station
/// identifier survives formatting and reparsing unchanged.
pub proof fn lemma_d_round_trip(v: DRecordView)
    requires
        byte_len(v.station_id) == 4,
    ensures
        spec_parse_d(spec_format_d(v)) == Ok::<DRecordView, ParseError>(v),
{
    let code = qualifier_char(v.qualifier);
    let p = seq!['D', code];
    let s = spec_format_d(v);
    lemma_encode_utf8_concat(p, v.station_id);
    lemma_byte_len_ascii_head(p);
    assert(p.drop_first() =~= seq![code]);
    lemma_byte_len_ascii_head(seq![code]);
    assert(seq![code].drop_first() =~= Seq::<char>::empty());
    assert(vstd::utf8::encode_utf8(Seq::<char>::empty()).len() == 0);
    assert(byte_len(s) == 6);
    assert(s.subrange(2, s.len() as int) =~= v.station_id);
}

} // verus!
