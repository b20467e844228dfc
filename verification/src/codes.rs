//! Closed-set header codes: disk format, display standard, and time code
//! status. Each pairs a lookup from its serialized form with the inverse
//! write-out, so parsing stays exhaustive when variants are added.

use vstd::prelude::*;

use crate::error::{ParseError, ParseErrorView};

verus! {

/// Disk format code: fixes the frame rate of the document.
#[allow(non_camel_case_types)]
#[derive(Debug, Clone, Copy, PartialEq, Eq, Structural)]
pub enum DiskFormatCode {
    STL25_01,
    STL30_01,
}

/// The eight ASCII bytes that name a disk format in the header.
pub open spec fn dfc_bytes(d: DiskFormatCode) -> Seq<u8> {
    match d {
        DiskFormatCode::STL25_01 => seq![
            0x53u8,
            0x54u8,
            0x4cu8,
            0x32u8,
            0x35u8,
            0x2eu8,
            0x30u8,
            0x31u8,
        ],
        DiskFormatCode::STL30_01 => seq![
            0x53u8,
            0x54u8,
            0x4cu8,
            0x33u8,
            0x30u8,
            0x2eu8,
            0x30u8,
            0x31u8,
        ],
    }
}

/// The disk format named by eight header bytes, if any.
pub open spec fn spec_parse_dfc(b: Seq<u8>) -> Option<DiskFormatCode> {
    if b == dfc_bytes(DiskFormatCode::STL25_01) {
        Some(DiskFormatCode::STL25_01)
    } else if b == dfc_bytes(DiskFormatCode::STL30_01) {
        Some(DiskFormatCode::STL30_01)
    } else {
        None
    }
}

/// Frames per second fixed by a disk format.
pub open spec fn spec_fps(d: DiskFormatCode) -> usize {
    match d {
        DiskFormatCode::STL25_01 => 25,
        DiskFormatCode::STL30_01 => 30,
    }
}

impl DiskFormatCode {
    /// Reads the eight-byte disk format string. Any other string is an
    /// error carrying the offending text.
    pub fn parse(data: &[u8]) -> (r: Result<DiskFormatCode, ParseError>)
        ensures
            match r {
                Ok(d) => spec_parse_dfc(data@) == Some(d),
                Err(e) => spec_parse_dfc(data@) is None && e@ == (
                if crate::legacy::all_ascii_bytes(data@) {
                    ParseErrorView::DiskFormatCode(crate::legacy::bytes_as_chars(data@))
                } else {
                    ParseErrorView::Unknown
                }),
            },
    {
        if data.len() == 8 {
            let m25 = data[0] == 0x53 && data[1] == 0x54 && data[2] == 0x4c && data[3] == 0x32
                && data[4] == 0x35 && data[5] == 0x2e && data[6] == 0x30 && data[7] == 0x31;
            if m25 {
                proof {
                    assert(data@ =~= dfc_bytes(DiskFormatCode::STL25_01));
                }
                return Ok(DiskFormatCode::STL25_01);
            }
            let m30 = data[0] == 0x53 && data[1] == 0x54 && data[2] == 0x4c && data[3] == 0x33
                && data[4] == 0x30 && data[5] == 0x2e && data[6] == 0x30 && data[7] == 0x31;
            if m30 {
                proof {
                    assert(data@ =~= dfc_bytes(DiskFormatCode::STL30_01));
                }
                return Ok(DiskFormatCode::STL30_01);
            }
        }
        proof {
            if data@ == dfc_bytes(DiskFormatCode::STL25_01) {
                assert(data@.len() == 8 && data@[0] == 0x53 && data@[1] == 0x54 && data@[2] == 0x4c
                    && data@[3] == 0x32 && data@[4] == 0x35 && data@[5] == 0x2e && data@[6] == 0x30
                    && data@[7] == 0x31);
            }
            if data@ == dfc_bytes(DiskFormatCode::STL30_01) {
                assert(data@.len() == 8 && data@[0] == 0x53 && data@[1] == 0x54 && data@[2] == 0x4c
                    && data@[3] == 0x33 && data@[4] == 0x30 && data@[5] == 0x2e && data@[6] == 0x30
                    && data@[7] == 0x31);
            }
        }
        match crate::bytesutil::ascii_chars(data) {
            Some(s) => Err(ParseError::DiskFormatCode(s)),
            None => Err(ParseError::Unknown),
        }
    }

    /// Writes the eight-byte disk format string.
    pub fn serialize(&self) -> (r: Vec<u8>)
        ensures
            r@ == dfc_bytes(*self),
    {
        let mut r: Vec<u8> = Vec::new();
        r.push(0x53);
        r.push(0x54);
        r.push(0x4c);
        match *self {
            DiskFormatCode::STL25_01 => {
                r.push(0x32);
                r.push(0x35);
            },
            DiskFormatCode::STL30_01 => {
                r.push(0x33);
                r.push(0x30);
            },
        }
        r.push(0x2e);
        r.push(0x30);
        r.push(0x31);
        proof {
            assert(r@ =~= dfc_bytes(*self));
        }
        r
    }

    /// Frames per second of documents in this format.
    pub fn get_fps(&self) -> (r: usize)
        ensures
            r == spec_fps(*self),
    {
        match self {
            DiskFormatCode::STL25_01 => 25,
            DiskFormatCode::STL30_01 => 30,
        }
    }
}

/// Display standard code of the document.
#[derive(Debug, Clone, Copy, PartialEq, Eq, Structural)]
pub enum DisplayStandardCode {
    Blank,
    OpenSubtitling,
    Level1Teletext,
    Level2Teletext,
}

/// The byte that names a display standard in the header.
pub open spec fn dsc_byte(d: DisplayStandardCode) -> u8 {
    match d {
        DisplayStandardCode::Blank => 0x20,
        DisplayStandardCode::OpenSubtitling => 0x30,
        DisplayStandardCode::Level1Teletext => 0x31,
        DisplayStandardCode::Level2Teletext => 0x32,
    }
}

/// The display standard named by a header byte, if any.
pub open spec fn spec_parse_dsc(b: u8) -> Option<DisplayStandardCode> {
    if b == 0x20 {
        Some(DisplayStandardCode::Blank)
    } else if b == 0x30 {
        Some(DisplayStandardCode::OpenSubtitling)
    } else if b == 0x31 {
        Some(DisplayStandardCode::Level1Teletext)
    } else if b == 0x32 {
        Some(DisplayStandardCode::Level2Teletext)
    } else {
        None
    }
}

impl DisplayStandardCode {
    /// Reads the display standard byte; any other byte is an error.
    pub fn parse(data: u8) -> (r: Result<DisplayStandardCode, ParseError>)
        ensures
            match r {
                Ok(d) => spec_parse_dsc(data) == Some(d),
                Err(e) => spec_parse_dsc(data) is None && e@
                    == ParseErrorView::DisplayStandardCode,
            },
    {
        match data {
            0x20 => Ok(DisplayStandardCode::Blank),
            0x30 => Ok(DisplayStandardCode::OpenSubtitling),
            0x31 => Ok(DisplayStandardCode::Level1Teletext),
            0x32 => Ok(DisplayStandardCode::Level2Teletext),
            _ => Err(ParseError::DisplayStandardCode),
        }
    }

    /// Writes the display standard byte.
    pub fn serialize(&self) -> (r: u8)
        ensures
            r == dsc_byte(*self),
    {
        match *self {
            DisplayStandardCode::Blank => 0x20,
            DisplayStandardCode::OpenSubtitling => 0x30,
            DisplayStandardCode::Level1Teletext => 0x31,
            DisplayStandardCode::Level2Teletext => 0x32,
        }
    }
}

/// Whether the start-of-program time code is meant for use.
#[derive(Debug, Clone, Copy, PartialEq, Eq, Structural)]
pub enum TimeCodeStatus {
    NotIntendedForUse,
    IntendedForUse,
}

/// The byte that names a time code status in the header.
pub open spec fn tcs_byte(t: TimeCodeStatus) -> u8 {
    match t {
        TimeCodeStatus::NotIntendedForUse => 0x30,
        TimeCodeStatus::IntendedForUse => 0x31,
    }
}

/// The time code status named by a header byte, if any.
pub open spec fn spec_parse_tcs(b: u8) -> Option<TimeCodeStatus> {
    if b == 0x30 {
        Some(TimeCodeStatus::NotIntendedForUse)
    } else if b == 0x31 {
        Some(TimeCodeStatus::IntendedForUse)
    } else {
        None
    }
}

impl TimeCodeStatus {
    /// Reads the time code status byte; any other byte is an error.
    pub fn parse(data: u8) -> (r: Result<TimeCodeStatus, ParseError>)
        ensures
            match r {
                Ok(t) => spec_parse_tcs(data) == Some(t),
                Err(e) => spec_parse_tcs(data) is None && e@ == ParseErrorView::TimeCodeStatus,
            },
    {
        match data {
            0x30 => Ok(TimeCodeStatus::NotIntendedForUse),
            0x31 => Ok(TimeCodeStatus::IntendedForUse),
            _ => Err(ParseError::TimeCodeStatus),
        }
    }

    /// Writes the time code status byte.
    pub fn serialize(&self) -> (r: u8)
        ensures
            r == tcs_byte(*self),
    {
        match *self {
            TimeCodeStatus::NotIntendedForUse => 0x30,
            TimeCodeStatus::IntendedForUse => 0x31,
        }
    }
}

} // verus!
