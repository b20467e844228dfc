//! Code page selection for the header's own free-text fields.
//!
//! The header opens with a three-digit code page number drawn from a closed
//! set; it selects the single-byte character set used to read the header's
//! free-text metadata (a choice separate from the record text's character
//! code table). An unsupported number is a hard parse failure.

use vstd::prelude::*;

use crate::decimal::{dec_bytes, digits_val};
use crate::error::{ParseError, ParseErrorView};

verus! {

/// One of the supported code pages for header metadata.
#[allow(non_camel_case_types)]
#[derive(Debug, Clone, Copy, PartialEq, Eq, Structural)]
pub enum CodePageNumber {
    CPN_437,
    CPN_850,
    CPN_860,
    CPN_863,
    CPN_865,
}

/// The numeric value of a code page.
pub open spec fn cpn_value(c: CodePageNumber) -> u16 {
    match c {
        CodePageNumber::CPN_437 => 437,
        CodePageNumber::CPN_850 => 850,
        CodePageNumber::CPN_860 => 860,
        CodePageNumber::CPN_863 => 863,
        CodePageNumber::CPN_865 => 865,
    }
}

/// The three ASCII digits that name a code page in the header.
pub open spec fn cpn_bytes(c: CodePageNumber) -> Seq<u8> {
    match c {
        CodePageNumber::CPN_437 => seq![0x34u8, 0x33u8, 0x37u8],
        CodePageNumber::CPN_850 => seq![0x38u8, 0x35u8, 0x30u8],
        CodePageNumber::CPN_860 => seq![0x38u8, 0x36u8, 0x30u8],
        CodePageNumber::CPN_863 => seq![0x38u8, 0x36u8, 0x33u8],
        CodePageNumber::CPN_865 => seq![0x38u8, 0x36u8, 0x35u8],
    }
}

/// The code page with the given numeric value, if supported.
pub open spec fn spec_cpn_from_u16(v: u16) -> Option<CodePageNumber> {
    if v == 437 {
        Some(CodePageNumber::CPN_437)
    } else if v == 850 {
        Some(CodePageNumber::CPN_850)
    } else if v == 860 {
        Some(CodePageNumber::CPN_860)
    } else if v == 863 {
        Some(CodePageNumber::CPN_863)
    } else if v == 865 {
        Some(CodePageNumber::CPN_865)
    } else {
        None
    }
}

/// The numeric value is one of the supported code pages.
pub open spec fn is_supported_codepage(v: u16) -> bool {
    spec_cpn_from_u16(v) is Some
}

/// A code page's digits read back as its value and are its value's
/// three-digit rendering.
pub proof fn lemma_cpn_bytes_digits(c: CodePageNumber)
    ensures
        digits_val(cpn_bytes(c)) == cpn_value(c) as int,
        cpn_bytes(c) == dec_bytes(cpn_value(c) as int, 3),
{
    assert(crate::decimal::pow10(3) == 1000) by {
        reveal_with_fuel(crate::decimal::pow10, 4);
    }
    crate::decimal::lemma_dec_bytes_props(cpn_value(c) as int, 3);
    reveal_with_fuel(digits_val, 4);
    reveal_with_fuel(dec_bytes, 4);
    match c {
        CodePageNumber::CPN_437 => {
            assert(cpn_bytes(c).drop_last() =~= seq![0x34u8, 0x33u8]);
            assert(seq![0x34u8, 0x33u8].drop_last() =~= seq![0x34u8]);
            assert(seq![0x34u8].drop_last() =~= Seq::<u8>::empty());
            assert(dec_bytes(437, 3) =~= cpn_bytes(c));
        },
        CodePageNumber::CPN_850 => {
            assert(cpn_bytes(c).drop_last() =~= seq![0x38u8, 0x35u8]);
            assert(seq![0x38u8, 0x35u8].drop_last() =~= seq![0x38u8]);
            assert(seq![0x38u8].drop_last() =~= Seq::<u8>::empty());
            assert(dec_bytes(850, 3) =~= cpn_bytes(c));
        },
        CodePageNumber::CPN_860 => {
            assert(cpn_bytes(c).drop_last() =~= seq![0x38u8, 0x36u8]);
            assert(seq![0x38u8, 0x36u8].drop_last() =~= seq![0x38u8]);
            assert(seq![0x38u8].drop_last() =~= Seq::<u8>::empty());
            assert(dec_bytes(860, 3) =~= cpn_bytes(c));
        },
        CodePageNumber::CPN_863 => {
            assert(cpn_bytes(c).drop_last() =~= seq![0x38u8, 0x36u8]);
            assert(seq![0x38u8, 0x36u8].drop_last() =~= seq![0x38u8]);
            assert(seq![0x38u8].drop_last() =~= Seq::<u8>::empty());
            assert(dec_bytes(863, 3) =~= cpn_bytes(c));
        },
        CodePageNumber::CPN_865 => {
            assert(cpn_bytes(c).drop_last() =~= seq![0x38u8, 0x36u8]);
            assert(seq![0x38u8, 0x36u8].drop_last() =~= seq![0x38u8]);
            assert(seq![0x38u8].drop_last() =~= Seq::<u8>::empty());
            assert(dec_bytes(865, 3) =~= cpn_bytes(c));
        },
    }
}

impl CodePageNumber {
    /// Writes the three ASCII digits of the code page number.
    pub fn serialize(&self) -> (r: Vec<u8>)
        ensures
            r@ == cpn_bytes(*self),
    {
        let mut r: Vec<u8> = Vec::new();
        match *self {
            CodePageNumber::CPN_437 => {
                r.push(0x34);
                r.push(0x33);
                r.push(0x37);
            },
            CodePageNumber::CPN_850 => {
                r.push(0x38);
                r.push(0x35);
                r.push(0x30);
            },
            CodePageNumber::CPN_860 => {
                r.push(0x38);
                r.push(0x36);
                r.push(0x30);
            },
            CodePageNumber::CPN_863 => {
                r.push(0x38);
                r.push(0x36);
                r.push(0x33);
            },
            CodePageNumber::CPN_865 => {
                r.push(0x38);
                r.push(0x36);
                r.push(0x35);
            },
        }
        proof {
            assert(r@ =~= cpn_bytes(*self));
        }
        r
    }

    /// The code page with the given numeric value; any other value is an
    /// error carrying that value.
    pub fn from_u16(codepage: u16) -> (r: Result<CodePageNumber, ParseError>)
        ensures
            match r {
                Ok(c) => spec_cpn_from_u16(codepage) == Some(c),
                Err(e) => spec_cpn_from_u16(codepage) is None && e@
                    == ParseErrorView::CodePageNumber(codepage),
            },
    {
        match codepage {
            437 => Ok(CodePageNumber::CPN_437),
            850 => Ok(CodePageNumber::CPN_850),
            860 => Ok(CodePageNumber::CPN_860),
            863 => Ok(CodePageNumber::CPN_863),
            865 => Ok(CodePageNumber::CPN_865),
            _ => Err(ParseError::CodePageNumber(codepage)),
        }
    }

    /// The numeric value of this code page.
    pub fn value(&self) -> (r: u16)
        ensures
            r == cpn_value(*self),
    {
        match *self {
            CodePageNumber::CPN_437 => 437,
            CodePageNumber::CPN_850 => 850,
            CodePageNumber::CPN_860 => 860,
            CodePageNumber::CPN_863 => 863,
            CodePageNumber::CPN_865 => 865,
        }
    }
}

/// What the outside code page decoder returns for a supported code page and
/// a run of bytes.
pub uninterp spec fn cp_decode(cp: u16, b: Seq<u8>) -> Seq<char>;

/// Decodes header metadata bytes through a supported code page. Unmappable
/// bytes become a replacement character; the call never fails.
///
/// Relies on codepage-strings' `Coding::new` and `Coding::decode_lossy`:
/// `new` succeeds on every supported code page, and `decode_lossy` is a
/// lossless-or-substituting table lookup determined by the code page and the
/// bytes alone.
#[verifier::external_body]
pub(crate) fn decode_codepage(cp: u16, b: &[u8]) -> (r: String)
    requires
        is_supported_codepage(cp),
    ensures
        r@ == cp_decode(cp, b@),
{
    match codepage_strings::Coding::new(cp) {
        Ok(c) => c.decode_lossy(b).into_owned(),
        Err(_) => String::new(),
    }
}

} // verus!
