//! Byte-range descriptors and the generic extension-string decoder.

use vstd::prelude::*;

use crate::util::ParseError;

verus! {

/// A byte-range descriptor: a 1-based inclusive range over the whole line's
/// numbering, plus an informational label that takes no part in the lookup.
/// Descriptors come from a separate declaration record; zero or more of them
/// apply to one extension-bearing record.
#[derive(Clone, Copy, Debug)]
pub struct Extension<'a> {
    pub start_byte: usize,
    pub end_byte: usize,
    pub mnemonic: &'a str,
}

/// The capability an extension-bearing record kind exposes to the decoder:
/// the count of mandatory characters before the extension string begins
/// (including the one-character tag), and the raw extension string itself.
pub trait Extendable {
    /// The record kind's base length, as the contracts speak of it.
    spec fn spec_base_length(&self) -> int;

    /// The record's extension string, as the contracts speak of it.
    spec fn spec_extension_string(&self) -> Seq<char>;

    /// The count of mandatory characters before the extension string.
    fn base_length(&self) -> (r: usize)
        ensures
            r as int == self.spec_base_length(),
    ;

    /// The raw trailing portion of the line after the mandatory fields.
    fn extension_string(&self) -> (r: &str)
        ensures
            r@ == self.spec_extension_string(),
    ;
}

/// What decoding a descriptor `[start, end]` (1-based, inclusive, numbered
/// over the whole line) against an extension string yields: the referenced
/// substring, or `OutOfRange` when the range reaches into the mandatory
/// fields, is inverted, or passes the extension string's actual extent.
pub open spec fn spec_decode_extension(
    base: int,
    ext: Seq<char>,
    start: int,
    end: int,
) -> Result<Seq<char>, ParseError> {
    if start <= base || end < start || end - base > ext.len() {
        Err(ParseError::OutOfRange)
    } else {
        Ok(ext.subrange(start - base - 1, end - base))
    }
}

/// Resolves one descriptor against any extension-bearing record: translates
/// the descriptor's absolute 1-based inclusive range into half-open offsets
/// inside the extension string by subtracting the base length, then slices.
/// Never panics: every invalid range comes back as `OutOfRange`.
pub fn get_extension<'a, R: Extendable>(record: &'a R, extension: &Extension) -> (r: Result<
    &'a str,
    ParseError,
>)
    ensures
        match r {
            Ok(sub) => spec_decode_extension(
                record.spec_base_length(),
                record.spec_extension_string(),
                extension.start_byte as int,
                extension.end_byte as int,
            ) == Ok::<Seq<char>, ParseError>(sub@),
            Err(e) => spec_decode_extension(
                record.spec_base_length(),
                record.spec_extension_string(),
                extension.start_byte as int,
                extension.end_byte as int,
            ) == Err::<Seq<char>, ParseError>(e),
        },
{
    let base = record.base_length();
    let s = record.extension_string();
    let len = s.unicode_len();
    if extension.start_byte <= base || extension.end_byte < extension.start_byte {
        return Err(ParseError::OutOfRange);
    }
    if extension.end_byte - base > len {
        return Err(ParseError::OutOfRange);
    }
    Ok(s.substring_char(extension.start_byte - base - 1, extension.end_byte - base))
}

} // verus!
