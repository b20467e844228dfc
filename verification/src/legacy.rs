//! Legacy single-byte text codec.
//!
//! A record's text travels in one of five legacy 8-bit character sets,
//! selected by the header's character code table field. Encoding substitutes
//! a replacement byte for unmappable characters and decoding substitutes a
//! replacement character for unmappable bytes, so neither direction fails.
//!
//! The character sets themselves live in an outside crate. Each is reached
//! through one trusted wrapper per direction; every wrapper also states the
//! one table fact the proofs here rest on: characters and bytes below 0x80
//! pass through unchanged, in both directions, in all five sets.

use vstd::prelude::*;

use crate::error::ParseError;

verus! {

/// Selects one of the five legacy character sets for record text.
#[derive(Debug, Clone, Copy, PartialEq, Eq, Structural)]
pub enum CharacterCodeTable {
    Latin,
    LatinCyrillic,
    LatinArabic,
    LatinGreek,
    LatinHebrew,
}

/// The two bytes that name a character code table inside the header.
pub open spec fn cct_bytes(c: CharacterCodeTable) -> Seq<u8> {
    match c {
        CharacterCodeTable::Latin => seq![0x30u8, 0x30u8],
        CharacterCodeTable::LatinCyrillic => seq![0x30u8, 0x31u8],
        CharacterCodeTable::LatinArabic => seq![0x30u8, 0x32u8],
        CharacterCodeTable::LatinGreek => seq![0x30u8, 0x33u8],
        CharacterCodeTable::LatinHebrew => seq![0x30u8, 0x34u8],
    }
}

/// The table named by two header bytes, if any.
pub open spec fn spec_parse_cct(b: Seq<u8>) -> Option<CharacterCodeTable> {
    if b.len() != 2 || b[0] != 0x30 {
        None
    } else if b[1] == 0x30 {
        Some(CharacterCodeTable::Latin)
    } else if b[1] == 0x31 {
        Some(CharacterCodeTable::LatinCyrillic)
    } else if b[1] == 0x32 {
        Some(CharacterCodeTable::LatinArabic)
    } else if b[1] == 0x33 {
        Some(CharacterCodeTable::LatinGreek)
    } else if b[1] == 0x34 {
        Some(CharacterCodeTable::LatinHebrew)
    } else {
        None
    }
}

impl CharacterCodeTable {
    /// Reads the two-byte table selector; any other bytes are an error.
    pub fn parse(data: &[u8]) -> (r: Result<CharacterCodeTable, ParseError>)
        ensures
            match r {
                Ok(c) => spec_parse_cct(data@) == Some(c),
                Err(e) => spec_parse_cct(data@) is None && e@
                    == crate::error::ParseErrorView::CharacterCodeTable,
            },
    {
        if data.len() != 2 {
            return Err(ParseError::CharacterCodeTable);
        }
        if data[0] != 0x30 {
            return Err(ParseError::CharacterCodeTable);
        }
        match data[1] {
            0x30 => Ok(CharacterCodeTable::Latin),
            0x31 => Ok(CharacterCodeTable::LatinCyrillic),
            0x32 => Ok(CharacterCodeTable::LatinArabic),
            0x33 => Ok(CharacterCodeTable::LatinGreek),
            0x34 => Ok(CharacterCodeTable::LatinHebrew),
            _ => Err(ParseError::CharacterCodeTable),
        }
    }

    /// Writes the two-byte table selector.
    pub fn serialize(&self) -> (r: Vec<u8>)
        ensures
            r@ == cct_bytes(*self),
    {
        let mut r: Vec<u8> = Vec::new();
        r.push(0x30);
        match *self {
            CharacterCodeTable::Latin => r.push(0x30),
            CharacterCodeTable::LatinCyrillic => r.push(0x31),
            CharacterCodeTable::LatinArabic => r.push(0x32),
            CharacterCodeTable::LatinGreek => r.push(0x33),
            CharacterCodeTable::LatinHebrew => r.push(0x34),
        }
        proof {
            assert(r@ =~= cct_bytes(*self));
        }
        r
    }
}

/// Every character of the run is below 0x80.
pub open spec fn all_ascii_chars(s: Seq<char>) -> bool {
    forall|i: int| 0 <= i < s.len() ==> ((#[trigger] s[i]) as u32) < 0x80
}

/// Every byte of the run is below 0x80.
pub open spec fn all_ascii_bytes(b: Seq<u8>) -> bool {
    forall|i: int| 0 <= i < b.len() ==> (#[trigger] b[i]) < 0x80
}

/// Characters taken as single bytes, meaningful below 0x80.
pub open spec fn chars_as_bytes(s: Seq<char>) -> Seq<u8> {
    Seq::new(s.len(), |i: int| (s[i] as u32) as u8)
}

/// Bytes taken as single characters.
pub open spec fn bytes_as_chars(b: Seq<u8>) -> Seq<char> {
    Seq::new(b.len(), |i: int| (b[i] as u32) as char)
}

/// What the outside ISO 6937 encoder returns on a run that is not all ASCII.
pub uninterp spec fn iso6937_enc_other(s: Seq<char>) -> Seq<u8>;

/// ISO 6937 encoding of a character run: single identity bytes below 0x80,
/// the outside table elsewhere.
pub open spec fn iso6937_enc(s: Seq<char>) -> Seq<u8> {
    if all_ascii_chars(s) {
        chars_as_bytes(s)
    } else {
        iso6937_enc_other(s)
    }
}

/// What the outside ISO 6937 decoder returns on a run that is not all ASCII.
pub uninterp spec fn iso6937_dec_other(b: Seq<u8>) -> Seq<char>;

/// ISO 6937 decoding of a byte run: identity characters below 0x80, the
/// outside table elsewhere.
pub open spec fn iso6937_dec(b: Seq<u8>) -> Seq<char> {
    if all_ascii_bytes(b) {
        bytes_as_chars(b)
    } else {
        iso6937_dec_other(b)
    }
}

/// Relies on textcode's ISO 6937 encoder: the result is a function of the
/// characters alone, and characters below 0x80 each encode to the same
/// single byte.
#[verifier::external_body]
fn iso6937_encode(s: &str) -> (r: Vec<u8>)
    ensures
        r@ == iso6937_enc(s@),
        !all_ascii_chars(s@) ==> r@ == iso6937_enc_other(s@),
{
    textcode::encode::<textcode::Iso6937>(s)
}

/// Relies on textcode's ISO 6937 decoder: the result is a function of the
/// bytes alone, and bytes below 0x80 each decode to the same character.
#[verifier::external_body]
fn iso6937_decode(b: &[u8]) -> (r: String)
    ensures
        r@ == iso6937_dec(b@),
        !all_ascii_bytes(b@) ==> r@ == iso6937_dec_other(b@),
{
    textcode::decode::<textcode::Iso6937>(b)
}

/// What the outside ISO 8859-5 encoder returns on a run that is not all ASCII.
pub uninterp spec fn iso8859_5_enc_other(s: Seq<char>) -> Seq<u8>;

/// ISO 8859-5 encoding of a character run.
pub open spec fn iso8859_5_enc(s: Seq<char>) -> Seq<u8> {
    if all_ascii_chars(s) {
        chars_as_bytes(s)
    } else {
        iso8859_5_enc_other(s)
    }
}

/// What the outside ISO 8859-5 decoder returns on a run that is not all ASCII.
pub uninterp spec fn iso8859_5_dec_other(b: Seq<u8>) -> Seq<char>;

/// ISO 8859-5 decoding of a byte run.
pub open spec fn iso8859_5_dec(b: Seq<u8>) -> Seq<char> {
    if all_ascii_bytes(b) {
        bytes_as_chars(b)
    } else {
        iso8859_5_dec_other(b)
    }
}

/// Relies on textcode's ISO 8859-5 encoder: a function of the characters
/// alone; characters below 0x80 each encode to the same single byte.
#[verifier::external_body]
fn iso8859_5_encode(s: &str) -> (r: Vec<u8>)
    ensures
        r@ == iso8859_5_enc(s@),
        !all_ascii_chars(s@) ==> r@ == iso8859_5_enc_other(s@),
{
    textcode::encode::<textcode::Iso8859_5>(s)
}

/// Relies on textcode's ISO 8859-5 decoder: a function of the bytes alone;
/// bytes below 0x80 each decode to the same character.
#[verifier::external_body]
fn iso8859_5_decode(b: &[u8]) -> (r: String)
    ensures
        r@ == iso8859_5_dec(b@),
        !all_ascii_bytes(b@) ==> r@ == iso8859_5_dec_other(b@),
{
    textcode::decode::<textcode::Iso8859_5>(b)
}

/// What the outside ISO 8859-6 encoder returns on a run that is not all ASCII.
pub uninterp spec fn iso8859_6_enc_other(s: Seq<char>) -> Seq<u8>;

/// ISO 8859-6 encoding of a character run.
pub open spec fn iso8859_6_enc(s: Seq<char>) -> Seq<u8> {
    if all_ascii_chars(s) {
        chars_as_bytes(s)
    } else {
        iso8859_6_enc_other(s)
    }
}

/// What the outside ISO 8859-6 decoder returns on a run that is not all ASCII.
pub uninterp spec fn iso8859_6_dec_other(b: Seq<u8>) -> Seq<char>;

/// ISO 8859-6 decoding of a byte run.
pub open spec fn iso8859_6_dec(b: Seq<u8>) -> Seq<char> {
    if all_ascii_bytes(b) {
        bytes_as_chars(b)
    } else {
        iso8859_6_dec_other(b)
    }
}

/// Relies on textcode's ISO 8859-6 encoder: a function of the characters
/// alone; characters below 0x80 each encode to the same single byte.
#[verifier::external_body]
fn iso8859_6_encode(s: &str) -> (r: Vec<u8>)
    ensures
        r@ == iso8859_6_enc(s@),
        !all_ascii_chars(s@) ==> r@ == iso8859_6_enc_other(s@),
{
    textcode::encode::<textcode::Iso8859_6>(s)
}

/// Relies on textcode's ISO 8859-6 decoder: a function of the bytes alone;
/// bytes below 0x80 each decode to the same character.
#[verifier::external_body]
fn iso8859_6_decode(b: &[u8]) -> (r: String)
    ensures
        r@ == iso8859_6_dec(b@),
        !all_ascii_bytes(b@) ==> r@ == iso8859_6_dec_other(b@),
{
    textcode::decode::<textcode::Iso8859_6>(b)
}

/// What the outside ISO 8859-7 encoder returns on a run that is not all ASCII.
pub uninterp spec fn iso8859_7_enc_other(s: Seq<char>) -> Seq<u8>;

/// ISO 8859-7 encoding of a character run.
pub open spec fn iso8859_7_enc(s: Seq<char>) -> Seq<u8> {
    if all_ascii_chars(s) {
        chars_as_bytes(s)
    } else {
        iso8859_7_enc_other(s)
    }
}

/// What the outside ISO 8859-7 decoder returns on a run that is not all ASCII.
pub uninterp spec fn iso8859_7_dec_other(b: Seq<u8>) -> Seq<char>;

/// ISO 8859-7 decoding of a byte run.
pub open spec fn iso8859_7_dec(b: Seq<u8>) -> Seq<char> {
    if all_ascii_bytes(b) {
        bytes_as_chars(b)
    } else {
        iso8859_7_dec_other(b)
    }
}

/// Relies on textcode's ISO 8859-7 encoder: a function of the characters
/// alone; characters below 0x80 each encode to the same single byte.
#[verifier::external_body]
fn iso8859_7_encode(s: &str) -> (r: Vec<u8>)
    ensures
        r@ == iso8859_7_enc(s@),
        !all_ascii_chars(s@) ==> r@ == iso8859_7_enc_other(s@),
{
    textcode::encode::<textcode::Iso8859_7>(s)
}

/// Relies on textcode's ISO 8859-7 decoder: a function of the bytes alone;
/// bytes below 0x80 each decode to the same character.
#[verifier::external_body]
fn iso8859_7_decode(b: &[u8]) -> (r: String)
    ensures
        r@ == iso8859_7_dec(b@),
        !all_ascii_bytes(b@) ==> r@ == iso8859_7_dec_other(b@),
{
    textcode::decode::<textcode::Iso8859_7>(b)
}

/// What the outside ISO 8859-8 encoder returns on a run that is not all ASCII.
pub uninterp spec fn iso8859_8_enc_other(s: Seq<char>) -> Seq<u8>;

/// ISO 8859-8 encoding of a character run.
pub open spec fn iso8859_8_enc(s: Seq<char>) -> Seq<u8> {
    if all_ascii_chars(s) {
        chars_as_bytes(s)
    } else {
        iso8859_8_enc_other(s)
    }
}

/// What the outside ISO 8859-8 decoder returns on a run that is not all ASCII.
pub uninterp spec fn iso8859_8_dec_other(b: Seq<u8>) -> Seq<char>;

/// ISO 8859-8 decoding of a byte run.
pub open spec fn iso8859_8_dec(b: Seq<u8>) -> Seq<char> {
    if all_ascii_bytes(b) {
        bytes_as_chars(b)
    } else {
        iso8859_8_dec_other(b)
    }
}

/// Relies on textcode's ISO 8859-8 encoder: a function of the characters
/// alone; characters below 0x80 each encode to the same single byte.
#[verifier::external_body]
fn iso8859_8_encode(s: &str) -> (r: Vec<u8>)
    ensures
        r@ == iso8859_8_enc(s@),
        !all_ascii_chars(s@) ==> r@ == iso8859_8_enc_other(s@),
{
    textcode::encode::<textcode::Iso8859_8>(s)
}

/// Relies on textcode's ISO 8859-8 decoder: a function of the bytes alone;
/// bytes below 0x80 each decode to the same character.
#[verifier::external_body]
fn iso8859_8_decode(b: &[u8]) -> (r: String)
    ensures
        r@ == iso8859_8_dec(b@),
        !all_ascii_bytes(b@) ==> r@ == iso8859_8_dec_other(b@),
{
    textcode::decode::<textcode::Iso8859_8>(b)
}

/// Encoding of a character run in the selected character set.
pub open spec fn legacy_encode(cct: CharacterCodeTable, s: Seq<char>) -> Seq<u8> {
    match cct {
        CharacterCodeTable::Latin => iso6937_enc(s),
        CharacterCodeTable::LatinCyrillic => iso8859_5_enc(s),
        CharacterCodeTable::LatinArabic => iso8859_6_enc(s),
        CharacterCodeTable::LatinGreek => iso8859_7_enc(s),
        CharacterCodeTable::LatinHebrew => iso8859_8_enc(s),
    }
}

/// Decoding of a byte run in the selected character set.
pub open spec fn legacy_decode(cct: CharacterCodeTable, b: Seq<u8>) -> Seq<char> {
    match cct {
        CharacterCodeTable::Latin => iso6937_dec(b),
        CharacterCodeTable::LatinCyrillic => iso8859_5_dec(b),
        CharacterCodeTable::LatinArabic => iso8859_6_dec(b),
        CharacterCodeTable::LatinGreek => iso8859_7_dec(b),
        CharacterCodeTable::LatinHebrew => iso8859_8_dec(b),
    }
}

/// Encodes text into the selected legacy character set. Unmappable
/// characters become a replacement byte; the call never fails.
pub fn encode_legacy(cct: CharacterCodeTable, s: &str) -> (r: Vec<u8>)
    ensures
        r@ == legacy_encode(cct, s@),
{
    match cct {
        CharacterCodeTable::Latin => iso6937_encode(s),
        CharacterCodeTable::LatinCyrillic => iso8859_5_encode(s),
        CharacterCodeTable::LatinArabic => iso8859_6_encode(s),
        CharacterCodeTable::LatinGreek => iso8859_7_encode(s),
        CharacterCodeTable::LatinHebrew => iso8859_8_encode(s),
    }
}

/// Decodes bytes from the selected legacy character set. Unmappable bytes
/// become a replacement character; the call never fails.
pub fn decode_legacy(cct: CharacterCodeTable, b: &[u8]) -> (r: String)
    ensures
        r@ == legacy_decode(cct, b@),
{
    match cct {
        CharacterCodeTable::Latin => iso6937_decode(b),
        CharacterCodeTable::LatinCyrillic => iso8859_5_decode(b),
        CharacterCodeTable::LatinArabic => iso8859_6_decode(b),
        CharacterCodeTable::LatinGreek => iso8859_7_decode(b),
        CharacterCodeTable::LatinHebrew => iso8859_8_decode(b),
    }
}

/// In every character set, a run of characters below 0x80 survives an
/// encode/decode round trip unchanged.
pub proof fn lemma_legacy_roundtrip_ascii(cct: CharacterCodeTable, s: Seq<char>)
    requires
        all_ascii_chars(s),
    ensures
        legacy_decode(cct, legacy_encode(cct, s)) == s,
{
    let e = legacy_encode(cct, s);
    assert(e == chars_as_bytes(s));
    assert forall|i: int| 0 <= i < e.len() implies (#[trigger] e[i]) < 0x80 by {
        assert(e[i] == (s[i] as u32) as u8);
        assert((s[i] as u32) < 0x80);
    }
    assert(all_ascii_bytes(e));
    assert(legacy_decode(cct, e) == bytes_as_chars(e));
    assert(bytes_as_chars(e) =~= s) by {
        assert forall|i: int| 0 <= i < s.len() implies bytes_as_chars(e)[i] == s[i] by {
            assert(e[i] == (s[i] as u32) as u8);
            assert((s[i] as u32) < 0x80);
            assert(e[i] as u32 == s[i] as u32);
            assert(((s[i] as u32) as char) == s[i]) by {
                vstd::utf8::char_u32_cast(s[i], s[i] as u32);
            }
            assert(bytes_as_chars(e)[i] == (e[i] as u32) as char);
        }
    }
}

} // verus!
