//! The GSI header block: the fixed 1024-byte record that opens a document.
//!
//! Every field sits at a fixed byte offset. Free-text metadata is kept here
//! exactly as it sits on disk — a run of bytes at its field's full width,
//! right-padded with spaces — and is decoded through the header's code page
//! only when read, so that a parsed header serializes back to the very bytes
//! it came from. Numeric counters are fixed-width zero-padded ASCII decimal;
//! the closed-set codes each occupy their documented range.

use vstd::prelude::*;

use crate::bytesutil::{copy_bytes, extend_bytes, lemma_split_concat, read_bytes, repeat_byte};
use crate::codepage::{
    CodePageNumber, cp_decode, cpn_bytes, cpn_value, decode_codepage, spec_cpn_from_u16,
};
use crate::codes::{
    DiskFormatCode, DisplayStandardCode, TimeCodeStatus, dfc_bytes, dsc_byte, spec_parse_dfc,
    spec_parse_dsc, spec_parse_tcs, tcs_byte,
};
use crate::decimal::{
    all_digits, dec_bytes, digits_val, format_decimal, lemma_dec_bytes_props, parse_decimal, pow10,
};
use crate::error::{ParseError, ParseErrorView};
use crate::legacy::{CharacterCodeTable, all_ascii_bytes, bytes_as_chars, cct_bytes, spec_parse_cct};

verus! {

/// `n` space bytes: the padding of every free-text field.
pub open spec fn spaces(n: nat) -> Seq<u8> {
    Seq::new(n, |i: int| 0x20u8)
}

/// Mathematical image of a [`GsiBlock`]: each stored byte run as a sequence.
#[verifier::ext_equal]
pub ghost struct GsiView {
    pub cpn: CodePageNumber,
    pub dfc: DiskFormatCode,
    pub dsc: DisplayStandardCode,
    pub cct: CharacterCodeTable,
    pub lc: Seq<u8>,
    pub opt: Seq<u8>,
    pub oet: Seq<u8>,
    pub tpt: Seq<u8>,
    pub tet: Seq<u8>,
    pub tn: Seq<u8>,
    pub tcd: Seq<u8>,
    pub slr: Seq<u8>,
    pub cd: Seq<u8>,
    pub rd: Seq<u8>,
    pub rn: Seq<u8>,
    pub tnb: u16,
    pub tns: u16,
    pub tng: u16,
    pub mnc: u16,
    pub mnr: u16,
    pub tcs: TimeCodeStatus,
    pub tcp: Seq<u8>,
    pub tcf: Seq<u8>,
    pub tnd: u8,
    pub dsn: u8,
    pub co: Seq<u8>,
    pub pub_: Seq<u8>,
    pub en: Seq<u8>,
    pub ecd: Seq<u8>,
    pub spare: Seq<u8>,
    pub uda: Seq<u8>,
}

/// Well-formedness of a header: every stored run has its field's exact
/// width, and every counter fits its digit count.
pub open spec fn gsi_wf(g: GsiView) -> bool {
    &&& g.lc.len() == 2
    &&& g.opt.len() == 32
    &&& g.oet.len() == 32
    &&& g.tpt.len() == 32
    &&& g.tet.len() == 32
    &&& g.tn.len() == 32
    &&& g.tcd.len() == 32
    &&& g.slr.len() == 16
    &&& g.cd.len() == 6
    &&& g.rd.len() == 6
    &&& g.rn.len() == 2
    &&& g.tng <= 999
    &&& g.mnc <= 99
    &&& g.mnr <= 99
    &&& g.tcp.len() == 8
    &&& g.tcf.len() == 8
    &&& g.tnd <= 9
    &&& g.dsn <= 9
    &&& g.co.len() == 3
    &&& g.pub_.len() == 32
    &&& g.en.len() == 32
    &&& g.ecd.len() == 32
    &&& g.spare.len() == 75
    &&& g.uda.len() == 576
}

/// The 1024 bytes of a serialized header, field by field in offset order.
pub open spec fn spec_ser_gsi(g: GsiView) -> Seq<u8> {
    cpn_bytes(g.cpn) + dfc_bytes(g.dfc) + seq![dsc_byte(g.dsc)] + cct_bytes(g.cct) + g.lc + g.opt
        + g.oet + g.tpt + g.tet + g.tn + g.tcd + g.slr + g.cd + g.rd + g.rn + dec_bytes(
        g.tnb as int,
        5,
    ) + dec_bytes(g.tns as int, 5) + dec_bytes(g.tng as int, 3) + dec_bytes(g.mnc as int, 2)
        + dec_bytes(g.mnr as int, 2) + seq![tcs_byte(g.tcs)] + g.tcp + g.tcf + dec_bytes(
        g.tnd as int,
        1,
    ) + dec_bytes(g.dsn as int, 1) + g.co + g.pub_ + g.en + g.ecd + g.spare + g.uda
}

/// A well-formed header always serializes to exactly 1024 bytes.
pub proof fn lemma_ser_gsi_len(g: GsiView)
    requires
        gsi_wf(g),
    ensures
        spec_ser_gsi(g).len() == 1024,
{
    crate::decimal::lemma_dec_bytes_len(g.tnb as int, 5);
    crate::decimal::lemma_dec_bytes_len(g.tns as int, 5);
    crate::decimal::lemma_dec_bytes_len(g.tng as int, 3);
    crate::decimal::lemma_dec_bytes_len(g.mnc as int, 2);
    crate::decimal::lemma_dec_bytes_len(g.mnr as int, 2);
    crate::decimal::lemma_dec_bytes_len(g.tnd as int, 1);
    crate::decimal::lemma_dec_bytes_len(g.dsn as int, 1);
}

/// The header of a freshly created document: default codes, empty
/// (all-space) metadata, zeroed counters, and today's date stamps.
pub open spec fn fresh_gsi(g: GsiView) -> bool {
    &&& g.cpn == CodePageNumber::CPN_850
    &&& g.dfc == DiskFormatCode::STL25_01
    &&& g.dsc == DisplayStandardCode::Level1Teletext
    &&& g.cct == CharacterCodeTable::Latin
    &&& g.lc == seq![0x30u8, 0x46u8]
    &&& g.opt == spaces(32)
    &&& g.oet == spaces(32)
    &&& g.tpt == spaces(32)
    &&& g.tet == spaces(32)
    &&& g.tn == spaces(32)
    &&& g.tcd == spaces(32)
    &&& g.slr == spaces(16)
    &&& g.cd.len() == 6
    &&& all_digits(g.cd)
    &&& g.rd == g.cd
    &&& g.rn == seq![0x30u8, 0x30u8]
    &&& g.tnb == 0
    &&& g.tns == 0
    &&& g.tng == 1
    &&& g.mnc == 40
    &&& g.mnr == 23
    &&& g.tcs == TimeCodeStatus::IntendedForUse
    &&& g.tcp == Seq::new(8, |i: int| 0x30u8)
    &&& g.tcf == Seq::new(8, |i: int| 0x30u8)
    &&& g.tnd == 1
    &&& g.dsn == 1
    &&& g.co == spaces(3)
    &&& g.pub_ == spaces(32)
    &&& g.en == spaces(32)
    &&& g.ecd == spaces(32)
    &&& g.spare == spaces(75)
    &&& g.uda == spaces(576)
}

/// Today's date as six ASCII digits, two each of year, month and day.
///
/// Relies on chrono's `Local::now` and `DateTime::format` with `"%y%m%d"`:
/// each of the three parts renders as exactly two decimal digits. The result
/// depends on the clock, so nothing more is stated of it.
#[verifier::external_body]
fn now_yymmdd() -> (r: Vec<u8>)
    ensures
        r@.len() == 6,
        all_digits(r@),
{
    chrono::Local::now().format("%y%m%d").to_string().into_bytes()
}

/// Value of a fixed-width counter field: defined when every byte is an
/// ASCII digit and the value fits the counter.
pub open spec fn spec_field_u16(b: Seq<u8>) -> Option<u16> {
    if all_digits(b) && digits_val(b) <= 65535 {
        Some(digits_val(b) as u16)
    } else {
        None
    }
}

/// The header parsed from the first 1024 bytes of a buffer, or the error of
/// the first field that fails, in offset order.
pub open spec fn spec_parse_gsi(b: Seq<u8>) -> Result<GsiView, ParseErrorView> {
    if b.len() < 3 {
        Err(ParseErrorView::Incomplete)
    } else if !all_digits(b.subrange(0, 3)) {
        Err(ParseErrorView::Unknown)
    } else if b.len() < 11 {
        Err(ParseErrorView::Incomplete)
    } else {
        let cpv = digits_val(b.subrange(0, 3)) as u16;
        match spec_parse_dfc(b.subrange(3, 11)) {
            None => if all_ascii_bytes(b.subrange(3, 11)) {
                Err(ParseErrorView::DiskFormatCode(bytes_as_chars(b.subrange(3, 11))))
            } else {
                Err(ParseErrorView::Unknown)
            },
            Some(dfc) => if b.len() < 12 {
                Err(ParseErrorView::Incomplete)
            } else {
                match spec_parse_dsc(b[11]) {
                    None => Err(ParseErrorView::DisplayStandardCode),
                    Some(dsc) => if b.len() < 14 {
                        Err(ParseErrorView::Incomplete)
                    } else {
                        match spec_parse_cct(b.subrange(12, 14)) {
                            None => Err(ParseErrorView::CharacterCodeTable),
                            Some(cct) => match spec_cpn_from_u16(cpv) {
                                None => Err(ParseErrorView::CodePageNumber(cpv)),
                                Some(cpn) => spec_parse_gsi_rest(b, cpn, dfc, dsc, cct),
                            },
                        }
                    },
                }
            },
        }
    }
}

/// The counters, time codes and free-text fields of the header, read after
/// the leading codes have been accepted.
pub open spec fn spec_parse_gsi_rest(
    b: Seq<u8>,
    cpn: CodePageNumber,
    dfc: DiskFormatCode,
    dsc: DisplayStandardCode,
    cct: CharacterCodeTable,
) -> Result<GsiView, ParseErrorView> {
    if b.len() < 243 {
        Err(ParseErrorView::Incomplete)
    } else {
        match spec_field_u16(b.subrange(238, 243)) {
            None => Err(ParseErrorView::Unknown),
            Some(tnb) => if b.len() < 248 {
                Err(ParseErrorView::Incomplete)
            } else {
                match spec_field_u16(b.subrange(243, 248)) {
                    None => Err(ParseErrorView::Unknown),
                    Some(tns) => if b.len() < 251 {
                        Err(ParseErrorView::Incomplete)
                    } else {
                        match spec_field_u16(b.subrange(248, 251)) {
                            None => Err(ParseErrorView::Unknown),
                            Some(tng) => if b.len() < 253 {
                                Err(ParseErrorView::Incomplete)
                            } else {
                                match spec_field_u16(b.subrange(251, 253)) {
                                    None => Err(ParseErrorView::Unknown),
                                    Some(mnc) => if b.len() < 255 {
                                        Err(ParseErrorView::Incomplete)
                                    } else {
                                        match spec_field_u16(b.subrange(253, 255)) {
                                            None => Err(ParseErrorView::Unknown),
                                            Some(mnr) => spec_parse_gsi_tail(
                                                b,
                                                cpn,
                                                dfc,
                                                dsc,
                                                cct,
                                                tnb,
                                                tns,
                                                tng,
                                                mnc,
                                                mnr,
                                            ),
                                        }
                                    },
                                }
                            },
                        }
                    },
                }
            },
        }
    }
}

/// The fields of the header from the time code status on.
pub open spec fn spec_parse_gsi_tail(
    b: Seq<u8>,
    cpn: CodePageNumber,
    dfc: DiskFormatCode,
    dsc: DisplayStandardCode,
    cct: CharacterCodeTable,
    tnb: u16,
    tns: u16,
    tng: u16,
    mnc: u16,
    mnr: u16,
) -> Result<GsiView, ParseErrorView> {
    if b.len() < 256 {
        Err(ParseErrorView::Incomplete)
    } else {
        match spec_parse_tcs(b[255]) {
            None => Err(ParseErrorView::TimeCodeStatus),
            Some(tcs) => if b.len() < 273 {
                Err(ParseErrorView::Incomplete)
            } else {
                match spec_field_u16(b.subrange(272, 273)) {
                    None => Err(ParseErrorView::Unknown),
                    Some(tnd) => if b.len() < 274 {
                        Err(ParseErrorView::Incomplete)
                    } else {
                        match spec_field_u16(b.subrange(273, 274)) {
                            None => Err(ParseErrorView::Unknown),
                            Some(dsn) => if b.len() < 1024 {
                                Err(ParseErrorView::Incomplete)
                            } else {
                                Ok(
                                    GsiView {
                                        cpn,
                                        dfc,
                                        dsc,
                                        cct,
                                        lc: b.subrange(14, 16),
                                        opt: b.subrange(16, 48),
                                        oet: b.subrange(48, 80),
                                        tpt: b.subrange(80, 112),
                                        tet: b.subrange(112, 144),
                                        tn: b.subrange(144, 176),
                                        tcd: b.subrange(176, 208),
                                        slr: b.subrange(208, 224),
                                        cd: b.subrange(224, 230),
                                        rd: b.subrange(230, 236),
                                        rn: b.subrange(236, 238),
                                        tnb,
                                        tns,
                                        tng,
                                        mnc,
                                        mnr,
                                        tcs,
                                        tcp: b.subrange(256, 264),
                                        tcf: b.subrange(264, 272),
                                        tnd: tnd as u8,
                                        dsn: dsn as u8,
                                        co: b.subrange(274, 277),
                                        pub_: b.subrange(277, 309),
                                        en: b.subrange(309, 341),
                                        ecd: b.subrange(341, 373),
                                        spare: b.subrange(373, 448),
                                        uda: b.subrange(448, 1024),
                                    },
                                )
                            },
                        }
                    },
                }
            },
        }
    }
}

/// Reads a fixed-width counter field out of the buffer.
fn parse_counter(b: &[u8], off: usize, end: usize) -> (r: Option<u16>)
    requires
        off <= end <= b@.len(),
        end - off <= 5,
    ensures
        r == spec_field_u16(b@.subrange(off as int, end as int)),
{
    match parse_decimal(vstd::slice::slice_subrange(b, off, end)) {
        Some(v) => if v <= 65535 {
            Some(v as u16)
        } else {
            proof {
                assert(digits_val(b@.subrange(off as int, end as int)) == v as int);
            }
            None
        },
        None => None,
    }
}

/// Parses the header from the first 1024 bytes of a buffer. Fails on the
/// first invalid field with that field's error; never returns a partial
/// header.
pub fn parse_gsi_block(input: &[u8]) -> (r: Result<GsiBlock, ParseError>)
    ensures
        match r {
            Ok(g) => spec_parse_gsi(input@) == Ok::<GsiView, ParseErrorView>(g@) && gsi_wf(g@),
            Err(e) => spec_parse_gsi(input@) == Err::<GsiView, ParseErrorView>(e@),
        },
{
    if input.len() < 3 {
        return Err(ParseError::Incomplete);
    }
    let cpv = match parse_decimal(vstd::slice::slice_subrange(input, 0, 3)) {
        Some(v) => v,
        None => {
            return Err(ParseError::Unknown);
        },
    };
    proof {
        crate::decimal::lemma_digits_val_bound(input@.subrange(0, 3));
        assert(pow10(3) == 1000 && pow10(2) == 100 && pow10(1) == 10) by {
            reveal_with_fuel(pow10, 4);
        }
    }
    if input.len() < 11 {
        return Err(ParseError::Incomplete);
    }
    let dfc = match DiskFormatCode::parse(vstd::slice::slice_subrange(input, 3, 11)) {
        Ok(d) => d,
        Err(e) => {
            return Err(e);
        },
    };
    if input.len() < 12 {
        return Err(ParseError::Incomplete);
    }
    let dsc = match DisplayStandardCode::parse(input[11]) {
        Ok(d) => d,
        Err(e) => {
            return Err(e);
        },
    };
    if input.len() < 14 {
        return Err(ParseError::Incomplete);
    }
    let cct = match CharacterCodeTable::parse(vstd::slice::slice_subrange(input, 12, 14)) {
        Ok(c) => c,
        Err(e) => {
            return Err(e);
        },
    };
    let cpn = match CodePageNumber::from_u16(cpv as u16) {
        Ok(c) => c,
        Err(e) => {
            return Err(e);
        },
    };
    if input.len() < 243 {
        return Err(ParseError::Incomplete);
    }
    let tnb = match parse_counter(input, 238, 243) {
        Some(v) => v,
        None => {
            return Err(ParseError::Unknown);
        },
    };
    if input.len() < 248 {
        return Err(ParseError::Incomplete);
    }
    let tns = match parse_counter(input, 243, 248) {
        Some(v) => v,
        None => {
            return Err(ParseError::Unknown);
        },
    };
    if input.len() < 251 {
        return Err(ParseError::Incomplete);
    }
    let tng = match parse_counter(input, 248, 251) {
        Some(v) => v,
        None => {
            return Err(ParseError::Unknown);
        },
    };
    proof {
        crate::decimal::lemma_digits_val_bound(input@.subrange(248, 251));
    }
    if input.len() < 253 {
        return Err(ParseError::Incomplete);
    }
    let mnc = match parse_counter(input, 251, 253) {
        Some(v) => v,
        None => {
            return Err(ParseError::Unknown);
        },
    };
    proof {
        crate::decimal::lemma_digits_val_bound(input@.subrange(251, 253));
    }
    if input.len() < 255 {
        return Err(ParseError::Incomplete);
    }
    let mnr = match parse_counter(input, 253, 255) {
        Some(v) => v,
        None => {
            return Err(ParseError::Unknown);
        },
    };
    proof {
        crate::decimal::lemma_digits_val_bound(input@.subrange(253, 255));
    }
    if input.len() < 256 {
        return Err(ParseError::Incomplete);
    }
    let tcs = match TimeCodeStatus::parse(input[255]) {
        Ok(t) => t,
        Err(e) => {
            return Err(e);
        },
    };
    if input.len() < 273 {
        return Err(ParseError::Incomplete);
    }
    let tnd = match parse_counter(input, 272, 273) {
        Some(v) => v,
        None => {
            return Err(ParseError::Unknown);
        },
    };
    proof {
        crate::decimal::lemma_digits_val_bound(input@.subrange(272, 273));
    }
    if input.len() < 274 {
        return Err(ParseError::Incomplete);
    }
    let dsn = match parse_counter(input, 273, 274) {
        Some(v) => v,
        None => {
            return Err(ParseError::Unknown);
        },
    };
    proof {
        crate::decimal::lemma_digits_val_bound(input@.subrange(273, 274));
    }
    if input.len() < 1024 {
        return Err(ParseError::Incomplete);
    }
    let g = GsiBlock {
        cpn,
        dfc,
        dsc,
        cct,
        lc: read_bytes(input, 14, 2),
        opt: read_bytes(input, 16, 32),
        oet: read_bytes(input, 48, 32),
        tpt: read_bytes(input, 80, 32),
        tet: read_bytes(input, 112, 32),
        tn: read_bytes(input, 144, 32),
        tcd: read_bytes(input, 176, 32),
        slr: read_bytes(input, 208, 16),
        cd: read_bytes(input, 224, 6),
        rd: read_bytes(input, 230, 6),
        rn: read_bytes(input, 236, 2),
        tnb,
        tns,
        tng,
        mnc,
        mnr,
        tcs,
        tcp: read_bytes(input, 256, 8),
        tcf: read_bytes(input, 264, 8),
        tnd: tnd as u8,
        dsn: dsn as u8,
        co: read_bytes(input, 274, 3),
        pub_: read_bytes(input, 277, 32),
        en: read_bytes(input, 309, 32),
        ecd: read_bytes(input, 341, 32),
        spare: read_bytes(input, 373, 75),
        uda: read_bytes(input, 448, 576),
    };
    proof {
        let sv = spec_parse_gsi(input@);
        assert(sv is Ok && sv->Ok_0 =~= g@);
    }
    Ok(g)
}

/// The GSI header block of a document: 1024 bytes of encoding selection,
/// free-text metadata, and counters, at fixed offsets.
#[derive(Debug)]
pub struct GsiBlock {
    /// 0..=2 code page number
    cpn: CodePageNumber,
    /// 3..=10 disk format code
    dfc: DiskFormatCode,
    /// 11 display standard code
    dsc: DisplayStandardCode,
    /// 12..=13 character code table
    cct: CharacterCodeTable,
    /// 14..=15 language code
    lc: Vec<u8>,
    /// 16..=47 original program title
    opt: Vec<u8>,
    /// 48..=79 original episode title
    oet: Vec<u8>,
    /// 80..=111 translated program title
    tpt: Vec<u8>,
    /// 112..=143 translated episode title
    tet: Vec<u8>,
    /// 144..=175 translator's name
    tn: Vec<u8>,
    /// 176..=207 translator's contact details
    tcd: Vec<u8>,
    /// 208..=223 subtitle list reference code
    slr: Vec<u8>,
    /// 224..=229 creation date
    cd: Vec<u8>,
    /// 230..=235 revision date
    rd: Vec<u8>,
    /// 236..=237 revision number
    rn: Vec<u8>,
    /// 238..=242 total number of text and timing blocks
    tnb: u16,
    /// 243..=247 total number of subtitles
    tns: u16,
    /// 248..=250 total number of subtitle groups
    tng: u16,
    /// 251..=252 maximum number of displayable characters in a row
    mnc: u16,
    /// 253..=254 maximum number of displayable rows
    mnr: u16,
    /// 255 time code status
    tcs: TimeCodeStatus,
    /// 256..=263 time code: start of programme
    tcp: Vec<u8>,
    /// 264..=271 time code: first in cue
    tcf: Vec<u8>,
    /// 272 total number of disks
    tnd: u8,
    /// 273 disk sequence number
    dsn: u8,
    /// 274..=276 country of origin
    co: Vec<u8>,
    /// 277..=308 publisher
    pub_: Vec<u8>,
    /// 309..=340 editor's name
    en: Vec<u8>,
    /// 341..=372 editor's contact details
    ecd: Vec<u8>,
    /// 373..=447 spare bytes
    spare: Vec<u8>,
    /// 448..=1023 user-defined area
    uda: Vec<u8>,
}

impl View for GsiBlock {
    type V = GsiView;

    closed spec fn view(&self) -> GsiView {
        GsiView {
            cpn: self.cpn,
            dfc: self.dfc,
            dsc: self.dsc,
            cct: self.cct,
            lc: self.lc@,
            opt: self.opt@,
            oet: self.oet@,
            tpt: self.tpt@,
            tet: self.tet@,
            tn: self.tn@,
            tcd: self.tcd@,
            slr: self.slr@,
            cd: self.cd@,
            rd: self.rd@,
            rn: self.rn@,
            tnb: self.tnb,
            tns: self.tns,
            tng: self.tng,
            mnc: self.mnc,
            mnr: self.mnr,
            tcs: self.tcs,
            tcp: self.tcp@,
            tcf: self.tcf@,
            tnd: self.tnd,
            dsn: self.dsn,
            co: self.co@,
            pub_: self.pub_@,
            en: self.en@,
            ecd: self.ecd@,
            spare: self.spare@,
            uda: self.uda@,
        }
    }
}

impl GsiBlock {
    /// A fresh header with default codes, empty metadata, zeroed counters,
    /// and today's date as creation and revision date.
    pub fn new() -> (r: GsiBlock)
        ensures
            gsi_wf(r@),
            fresh_gsi(r@),
    {
        let mut lc: Vec<u8> = Vec::new();
        lc.push(0x30);
        lc.push(0x46);
        let mut rn: Vec<u8> = Vec::new();
        rn.push(0x30);
        rn.push(0x30);
        let cd = now_yymmdd();
        let rd = copy_bytes(&cd);
        let r = GsiBlock {
            cpn: CodePageNumber::CPN_850,
            dfc: DiskFormatCode::STL25_01,
            dsc: DisplayStandardCode::Level1Teletext,
            cct: CharacterCodeTable::Latin,
            lc,
            opt: repeat_byte(0x20, 32),
            oet: repeat_byte(0x20, 32),
            tpt: repeat_byte(0x20, 32),
            tet: repeat_byte(0x20, 32),
            tn: repeat_byte(0x20, 32),
            tcd: repeat_byte(0x20, 32),
            slr: repeat_byte(0x20, 16),
            cd,
            rd,
            rn,
            tnb: 0,
            tns: 0,
            tng: 1,
            mnc: 40,
            mnr: 23,
            tcs: TimeCodeStatus::IntendedForUse,
            tcp: repeat_byte(0x30, 8),
            tcf: repeat_byte(0x30, 8),
            tnd: 1,
            dsn: 1,
            co: repeat_byte(0x20, 3),
            pub_: repeat_byte(0x20, 32),
            en: repeat_byte(0x20, 32),
            ecd: repeat_byte(0x20, 32),
            spare: repeat_byte(0x20, 75),
            uda: repeat_byte(0x20, 576),
        };
        proof {
            assert(r@.lc =~= seq![0x30u8, 0x46u8]);
            assert(r@.rn =~= seq![0x30u8, 0x30u8]);
        }
        r
    }

    /// Writes the header out as its exact 1024 bytes.
    pub fn serialize(&self) -> (res: Vec<u8>)
        requires
            gsi_wf(self@),
        ensures
            res@ == spec_ser_gsi(self@),
            res@.len() == 1024,
    {
        proof {
            assert(pow10(5) == 100000 && pow10(3) == 1000 && pow10(2) == 100 && pow10(1) == 10)
                by {
                reveal_with_fuel(pow10, 6);
            }
            lemma_ser_gsi_len(self@);
        }
        let mut res: Vec<u8> = Vec::new();
        let piece = self.cpn.serialize();
        extend_bytes(&mut res, piece.as_slice());
        let piece = self.dfc.serialize();
        extend_bytes(&mut res, piece.as_slice());
        res.push(self.dsc.serialize());
        proof {
            assert(res@ =~= cpn_bytes(self@.cpn) + dfc_bytes(self@.dfc) + seq![
                dsc_byte(self@.dsc),
            ]);
        }
        let piece = self.cct.serialize();
        extend_bytes(&mut res, piece.as_slice());
        extend_bytes(&mut res, self.lc.as_slice());
        extend_bytes(&mut res, self.opt.as_slice());
        extend_bytes(&mut res, self.oet.as_slice());
        extend_bytes(&mut res, self.tpt.as_slice());
        extend_bytes(&mut res, self.tet.as_slice());
        extend_bytes(&mut res, self.tn.as_slice());
        extend_bytes(&mut res, self.tcd.as_slice());
        extend_bytes(&mut res, self.slr.as_slice());
        extend_bytes(&mut res, self.cd.as_slice());
        extend_bytes(&mut res, self.rd.as_slice());
        extend_bytes(&mut res, self.rn.as_slice());
        let piece = format_decimal(self.tnb, 5);
        extend_bytes(&mut res, piece.as_slice());
        let piece = format_decimal(self.tns, 5);
        extend_bytes(&mut res, piece.as_slice());
        let piece = format_decimal(self.tng, 3);
        extend_bytes(&mut res, piece.as_slice());
        let piece = format_decimal(self.mnc, 2);
        extend_bytes(&mut res, piece.as_slice());
        let piece = format_decimal(self.mnr, 2);
        extend_bytes(&mut res, piece.as_slice());
        res.push(self.tcs.serialize());
        proof {
            assert(res@ =~= cpn_bytes(self@.cpn) + dfc_bytes(self@.dfc) + seq![dsc_byte(self@.dsc)]
                + cct_bytes(self@.cct) + self@.lc + self@.opt + self@.oet + self@.tpt + self@.tet
                + self@.tn + self@.tcd + self@.slr + self@.cd + self@.rd + self@.rn + dec_bytes(
                self@.tnb as int,
                5,
            ) + dec_bytes(self@.tns as int, 5) + dec_bytes(self@.tng as int, 3) + dec_bytes(
                self@.mnc as int,
                2,
            ) + dec_bytes(self@.mnr as int, 2) + seq![tcs_byte(self@.tcs)]);
        }
        extend_bytes(&mut res, self.tcp.as_slice());
        extend_bytes(&mut res, self.tcf.as_slice());
        let piece = format_decimal(self.tnd as u16, 1);
        extend_bytes(&mut res, piece.as_slice());
        let piece = format_decimal(self.dsn as u16, 1);
        extend_bytes(&mut res, piece.as_slice());
        extend_bytes(&mut res, self.co.as_slice());
        extend_bytes(&mut res, self.pub_.as_slice());
        extend_bytes(&mut res, self.en.as_slice());
        extend_bytes(&mut res, self.ecd.as_slice());
        extend_bytes(&mut res, self.spare.as_slice());
        extend_bytes(&mut res, self.uda.as_slice());
        proof {
            assert(res@ =~= spec_ser_gsi(self@));
        }
        res
    }
}



/// A buffer that opens with the 1024 serialized bytes of a well-formed
/// header parses back to that header, whatever follows.
#[verifier::rlimit(100)]
pub proof fn lemma_gsi_parse_prefix(g: GsiView, b: Seq<u8>)
    requires
        gsi_wf(g),
        b.len() >= 1024,
        b.subrange(0, 1024) == spec_ser_gsi(g),
    ensures
        spec_parse_gsi(b) == Ok::<GsiView, ParseErrorView>(g),
{
    let c = spec_ser_gsi(g);
    lemma_ser_gsi_len(g);
    assert(pow10(5) == 100000 && pow10(3) == 1000 && pow10(2) == 100 && pow10(1) == 10) by {
        reveal_with_fuel(pow10, 6);
    }
    crate::codepage::lemma_cpn_bytes_digits(g.cpn);
    lemma_dec_bytes_props(cpn_value(g.cpn) as int, 3);
    lemma_dec_bytes_props(g.tnb as int, 5);
    lemma_dec_bytes_props(g.tns as int, 5);
    lemma_dec_bytes_props(g.tng as int, 3);
    lemma_dec_bytes_props(g.mnc as int, 2);
    lemma_dec_bytes_props(g.mnr as int, 2);
    lemma_dec_bytes_props(g.tnd as int, 1);
    lemma_dec_bytes_props(g.dsn as int, 1);
    let p1 = cpn_bytes(g.cpn);
    let p2 = dfc_bytes(g.dfc);
    let p3 = seq![dsc_byte(g.dsc)];
    let p4 = cct_bytes(g.cct);
    let p5 = g.lc;
    let p6 = g.opt;
    let p7 = g.oet;
    let p8 = g.tpt;
    let p9 = g.tet;
    let p10 = g.tn;
    let p11 = g.tcd;
    let p12 = g.slr;
    let p13 = g.cd;
    let p14 = g.rd;
    let p15 = g.rn;
    let p16 = dec_bytes(g.tnb as int, 5);
    let p17 = dec_bytes(g.tns as int, 5);
    let p18 = dec_bytes(g.tng as int, 3);
    let p19 = dec_bytes(g.mnc as int, 2);
    let p20 = dec_bytes(g.mnr as int, 2);
    let p21 = seq![tcs_byte(g.tcs)];
    let p22 = g.tcp;
    let p23 = g.tcf;
    let p24 = dec_bytes(g.tnd as int, 1);
    let p25 = dec_bytes(g.dsn as int, 1);
    let p26 = g.co;
    let p27 = g.pub_;
    let p28 = g.en;
    let p29 = g.ecd;
    let p30 = g.spare;
    let p31 = g.uda;
    let s1 = p1;
    let s2 = s1 + p2;
    let s3 = s2 + p3;
    let s4 = s3 + p4;
    let s5 = s4 + p5;
    let s6 = s5 + p6;
    let s7 = s6 + p7;
    let s8 = s7 + p8;
    let s9 = s8 + p9;
    let s10 = s9 + p10;
    let s11 = s10 + p11;
    let s12 = s11 + p12;
    let s13 = s12 + p13;
    let s14 = s13 + p14;
    let s15 = s14 + p15;
    let s16 = s15 + p16;
    let s17 = s16 + p17;
    let s18 = s17 + p18;
    let s19 = s18 + p19;
    let s20 = s19 + p20;
    let s21 = s20 + p21;
    let s22 = s21 + p22;
    let s23 = s22 + p23;
    let s24 = s23 + p24;
    let s25 = s24 + p25;
    let s26 = s25 + p26;
    let s27 = s26 + p27;
    let s28 = s27 + p28;
    let s29 = s28 + p29;
    let s30 = s29 + p30;
    let s31 = s30 + p31;
    assert(c == s31);
    assert(p1.len() == 3);
    assert(p2.len() == 8);
    assert(p3.len() == 1);
    assert(p4.len() == 2);
    assert(p5.len() == 2);
    assert(p6.len() == 32);
    assert(p7.len() == 32);
    assert(p8.len() == 32);
    assert(p9.len() == 32);
    assert(p10.len() == 32);
    assert(p11.len() == 32);
    assert(p12.len() == 16);
    assert(p13.len() == 6);
    assert(p14.len() == 6);
    assert(p15.len() == 2);
    assert(p16.len() == 5);
    assert(p17.len() == 5);
    assert(p18.len() == 3);
    assert(p19.len() == 2);
    assert(p20.len() == 2);
    assert(p21.len() == 1);
    assert(p22.len() == 8);
    assert(p23.len() == 8);
    assert(p24.len() == 1);
    assert(p25.len() == 1);
    assert(p26.len() == 3);
    assert(p27.len() == 32);
    assert(p28.len() == 32);
    assert(p29.len() == 32);
    assert(p30.len() == 75);
    assert(p31.len() == 576);
    assert(c.subrange(448, 1024) == p31) by {
        lemma_split_concat(s30, p31, 448, 1024);
    }
    assert forall|i: int, j: int| 0 <= i <= j <= 448 implies c.subrange(i, j) == s30.subrange(i, j) by {
        lemma_split_concat(s30, p31, i, j);
    }
    assert(c.subrange(373, 448) == p30) by {
        lemma_split_concat(s29, p30, 373, 448);
    }
    assert forall|i: int, j: int| 0 <= i <= j <= 373 implies c.subrange(i, j) == s29.subrange(i, j) by {
        lemma_split_concat(s29, p30, i, j);
    }
    assert(c.subrange(341, 373) == p29) by {
        lemma_split_concat(s28, p29, 341, 373);
    }
    assert forall|i: int, j: int| 0 <= i <= j <= 341 implies c.subrange(i, j) == s28.subrange(i, j) by {
        lemma_split_concat(s28, p29, i, j);
    }
    assert(c.subrange(309, 341) == p28) by {
        lemma_split_concat(s27, p28, 309, 341);
    }
    assert forall|i: int, j: int| 0 <= i <= j <= 309 implies c.subrange(i, j) == s27.subrange(i, j) by {
        lemma_split_concat(s27, p28, i, j);
    }
    assert(c.subrange(277, 309) == p27) by {
        lemma_split_concat(s26, p27, 277, 309);
    }
    assert forall|i: int, j: int| 0 <= i <= j <= 277 implies c.subrange(i, j) == s26.subrange(i, j) by {
        lemma_split_concat(s26, p27, i, j);
    }
    assert(c.subrange(274, 277) == p26) by {
        lemma_split_concat(s25, p26, 274, 277);
    }
    assert forall|i: int, j: int| 0 <= i <= j <= 274 implies c.subrange(i, j) == s25.subrange(i, j) by {
        lemma_split_concat(s25, p26, i, j);
    }
    assert(c.subrange(273, 274) == p25) by {
        lemma_split_concat(s24, p25, 273, 274);
    }
    assert forall|i: int, j: int| 0 <= i <= j <= 273 implies c.subrange(i, j) == s24.subrange(i, j) by {
        lemma_split_concat(s24, p25, i, j);
    }
    assert(c.subrange(272, 273) == p24) by {
        lemma_split_concat(s23, p24, 272, 273);
    }
    assert forall|i: int, j: int| 0 <= i <= j <= 272 implies c.subrange(i, j) == s23.subrange(i, j) by {
        lemma_split_concat(s23, p24, i, j);
    }
    assert(c.subrange(264, 272) == p23) by {
        lemma_split_concat(s22, p23, 264, 272);
    }
    assert forall|i: int, j: int| 0 <= i <= j <= 264 implies c.subrange(i, j) == s22.subrange(i, j) by {
        lemma_split_concat(s22, p23, i, j);
    }
    assert(c.subrange(256, 264) == p22) by {
        lemma_split_concat(s21, p22, 256, 264);
    }
    assert forall|i: int, j: int| 0 <= i <= j <= 256 implies c.subrange(i, j) == s21.subrange(i, j) by {
        lemma_split_concat(s21, p22, i, j);
    }
    assert(c.subrange(255, 256) == p21) by {
        lemma_split_concat(s20, p21, 255, 256);
    }
    assert forall|i: int, j: int| 0 <= i <= j <= 255 implies c.subrange(i, j) == s20.subrange(i, j) by {
        lemma_split_concat(s20, p21, i, j);
    }
    assert(c.subrange(253, 255) == p20) by {
        lemma_split_concat(s19, p20, 253, 255);
    }
    assert forall|i: int, j: int| 0 <= i <= j <= 253 implies c.subrange(i, j) == s19.subrange(i, j) by {
        lemma_split_concat(s19, p20, i, j);
    }
    assert(c.subrange(251, 253) == p19) by {
        lemma_split_concat(s18, p19, 251, 253);
    }
    assert forall|i: int, j: int| 0 <= i <= j <= 251 implies c.subrange(i, j) == s18.subrange(i, j) by {
        lemma_split_concat(s18, p19, i, j);
    }
    assert(c.subrange(248, 251) == p18) by {
        lemma_split_concat(s17, p18, 248, 251);
    }
    assert forall|i: int, j: int| 0 <= i <= j <= 248 implies c.subrange(i, j) == s17.subrange(i, j) by {
        lemma_split_concat(s17, p18, i, j);
    }
    assert(c.subrange(243, 248) == p17) by {
        lemma_split_concat(s16, p17, 243, 248);
    }
    assert forall|i: int, j: int| 0 <= i <= j <= 243 implies c.subrange(i, j) == s16.subrange(i, j) by {
        lemma_split_concat(s16, p17, i, j);
    }
    assert(c.subrange(238, 243) == p16) by {
        lemma_split_concat(s15, p16, 238, 243);
    }
    assert forall|i: int, j: int| 0 <= i <= j <= 238 implies c.subrange(i, j) == s15.subrange(i, j) by {
        lemma_split_concat(s15, p16, i, j);
    }
    assert(c.subrange(236, 238) == p15) by {
        lemma_split_concat(s14, p15, 236, 238);
    }
    assert forall|i: int, j: int| 0 <= i <= j <= 236 implies c.subrange(i, j) == s14.subrange(i, j) by {
        lemma_split_concat(s14, p15, i, j);
    }
    assert(c.subrange(230, 236) == p14) by {
        lemma_split_concat(s13, p14, 230, 236);
    }
    assert forall|i: int, j: int| 0 <= i <= j <= 230 implies c.subrange(i, j) == s13.subrange(i, j) by {
        lemma_split_concat(s13, p14, i, j);
    }
    assert(c.subrange(224, 230) == p13) by {
        lemma_split_concat(s12, p13, 224, 230);
    }
    assert forall|i: int, j: int| 0 <= i <= j <= 224 implies c.subrange(i, j) == s12.subrange(i, j) by {
        lemma_split_concat(s12, p13, i, j);
    }
    assert(c.subrange(208, 224) == p12) by {
        lemma_split_concat(s11, p12, 208, 224);
    }
    assert forall|i: int, j: int| 0 <= i <= j <= 208 implies c.subrange(i, j) == s11.subrange(i, j) by {
        lemma_split_concat(s11, p12, i, j);
    }
    assert(c.subrange(176, 208) == p11) by {
        lemma_split_concat(s10, p11, 176, 208);
    }
    assert forall|i: int, j: int| 0 <= i <= j <= 176 implies c.subrange(i, j) == s10.subrange(i, j) by {
        lemma_split_concat(s10, p11, i, j);
    }
    assert(c.subrange(144, 176) == p10) by {
        lemma_split_concat(s9, p10, 144, 176);
    }
    assert forall|i: int, j: int| 0 <= i <= j <= 144 implies c.subrange(i, j) == s9.subrange(i, j) by {
        lemma_split_concat(s9, p10, i, j);
    }
    assert(c.subrange(112, 144) == p9) by {
        lemma_split_concat(s8, p9, 112, 144);
    }
    assert forall|i: int, j: int| 0 <= i <= j <= 112 implies c.subrange(i, j) == s8.subrange(i, j) by {
        lemma_split_concat(s8, p9, i, j);
    }
    assert(c.subrange(80, 112) == p8) by {
        lemma_split_concat(s7, p8, 80, 112);
    }
    assert forall|i: int, j: int| 0 <= i <= j <= 80 implies c.subrange(i, j) == s7.subrange(i, j) by {
        lemma_split_concat(s7, p8, i, j);
    }
    assert(c.subrange(48, 80) == p7) by {
        lemma_split_concat(s6, p7, 48, 80);
    }
    assert forall|i: int, j: int| 0 <= i <= j <= 48 implies c.subrange(i, j) == s6.subrange(i, j) by {
        lemma_split_concat(s6, p7, i, j);
    }
    assert(c.subrange(16, 48) == p6) by {
        lemma_split_concat(s5, p6, 16, 48);
    }
    assert forall|i: int, j: int| 0 <= i <= j <= 16 implies c.subrange(i, j) == s5.subrange(i, j) by {
        lemma_split_concat(s5, p6, i, j);
    }
    assert(c.subrange(14, 16) == p5) by {
        lemma_split_concat(s4, p5, 14, 16);
    }
    assert forall|i: int, j: int| 0 <= i <= j <= 14 implies c.subrange(i, j) == s4.subrange(i, j) by {
        lemma_split_concat(s4, p5, i, j);
    }
    assert(c.subrange(12, 14) == p4) by {
        lemma_split_concat(s3, p4, 12, 14);
    }
    assert forall|i: int, j: int| 0 <= i <= j <= 12 implies c.subrange(i, j) == s3.subrange(i, j) by {
        lemma_split_concat(s3, p4, i, j);
    }
    assert(c.subrange(11, 12) == p3) by {
        lemma_split_concat(s2, p3, 11, 12);
    }
    assert forall|i: int, j: int| 0 <= i <= j <= 11 implies c.subrange(i, j) == s2.subrange(i, j) by {
        lemma_split_concat(s2, p3, i, j);
    }
    assert(c.subrange(3, 11) == p2) by {
        lemma_split_concat(s1, p2, 3, 11);
    }
    assert forall|i: int, j: int| 0 <= i <= j <= 3 implies c.subrange(i, j) == s1.subrange(i, j) by {
        lemma_split_concat(s1, p2, i, j);
    }
    assert(c.subrange(0, 3) == p1) by {
        assert(s1.subrange(0, 3) =~= p1);
    }

    // The same ranges read the same bytes out of the longer buffer.
    assert forall|i: int, j: int| 0 <= i <= j <= 1024 implies b.subrange(i, j) == c.subrange(
        i,
        j,
    ) by {
        assert(b.subrange(i, j) =~= c.subrange(i, j)) by {
            assert forall|k: int| 0 <= k < j - i implies b.subrange(i, j)[k] == c.subrange(
                i,
                j,
            )[k] by {
                assert(b.subrange(0, 1024)[i + k] == b[i + k]);
                assert(c[i + k] == b.subrange(0, 1024)[i + k]);
            }
        }
    }
    assert(b.subrange(0, 3) == p1);
    assert(b.subrange(3, 11) == p2);
    assert(b.subrange(11, 12) == p3);
    assert(b.subrange(12, 14) == p4);
    assert(b.subrange(14, 16) == p5);
    assert(b.subrange(16, 48) == p6);
    assert(b.subrange(48, 80) == p7);
    assert(b.subrange(80, 112) == p8);
    assert(b.subrange(112, 144) == p9);
    assert(b.subrange(144, 176) == p10);
    assert(b.subrange(176, 208) == p11);
    assert(b.subrange(208, 224) == p12);
    assert(b.subrange(224, 230) == p13);
    assert(b.subrange(230, 236) == p14);
    assert(b.subrange(236, 238) == p15);
    assert(b.subrange(238, 243) == p16);
    assert(b.subrange(243, 248) == p17);
    assert(b.subrange(248, 251) == p18);
    assert(b.subrange(251, 253) == p19);
    assert(b.subrange(253, 255) == p20);
    assert(b.subrange(255, 256) == p21);
    assert(b.subrange(256, 264) == p22);
    assert(b.subrange(264, 272) == p23);
    assert(b.subrange(272, 273) == p24);
    assert(b.subrange(273, 274) == p25);
    assert(b.subrange(274, 277) == p26);
    assert(b.subrange(277, 309) == p27);
    assert(b.subrange(309, 341) == p28);
    assert(b.subrange(341, 373) == p29);
    assert(b.subrange(373, 448) == p30);
    assert(b.subrange(448, 1024) == p31);

    // The leading codes read back as themselves.
    assert(all_digits(b.subrange(0, 3)));
    assert(digits_val(b.subrange(0, 3)) == cpn_value(g.cpn) as int);
    assert(digits_val(b.subrange(0, 3)) as u16 == cpn_value(g.cpn));
    assert(spec_parse_dfc(p2) == Some(g.dfc)) by {
        if g.dfc == DiskFormatCode::STL30_01 {
            assert(dfc_bytes(DiskFormatCode::STL30_01)[3] == 0x33);
            assert(dfc_bytes(DiskFormatCode::STL25_01)[3] == 0x32);
        }
    }
    assert(b[11] == dsc_byte(g.dsc)) by {
        assert(b.subrange(11, 12)[0] == b[11]);
        assert(p3[0] == dsc_byte(g.dsc));
    }
    assert(spec_parse_dsc(dsc_byte(g.dsc)) == Some(g.dsc));
    assert(spec_parse_cct(p4) == Some(g.cct));
    assert(spec_cpn_from_u16(cpn_value(g.cpn)) == Some(g.cpn));

    // The counters read back as themselves.
    assert(spec_field_u16(p16) == Some(g.tnb));
    assert(spec_field_u16(p17) == Some(g.tns));
    assert(spec_field_u16(p18) == Some(g.tng));
    assert(spec_field_u16(p19) == Some(g.mnc));
    assert(spec_field_u16(p20) == Some(g.mnr));
    assert(b[255] == tcs_byte(g.tcs)) by {
        assert(b.subrange(255, 256)[0] == b[255]);
        assert(p21[0] == tcs_byte(g.tcs));
    }
    assert(spec_parse_tcs(tcs_byte(g.tcs)) == Some(g.tcs));
    assert(spec_field_u16(p24) == Some(g.tnd as u16));
    assert(spec_field_u16(p25) == Some(g.dsn as u16));

    let parsed = spec_parse_gsi(b);
    assert(parsed is Ok);
    assert(parsed->Ok_0 =~= g);
}

/// A well-formed header survives a serialize/parse round trip unchanged.
pub proof fn lemma_gsi_roundtrip(g: GsiView)
    requires
        gsi_wf(g),
    ensures
        spec_parse_gsi(spec_ser_gsi(g)) == Ok::<GsiView, ParseErrorView>(g),
{
    lemma_ser_gsi_len(g);
    assert(spec_ser_gsi(g).subrange(0, 1024) =~= spec_ser_gsi(g));
    lemma_gsi_parse_prefix(g, spec_ser_gsi(g));
}


impl GsiBlock {
    /// The header's code page number.
    pub fn get_code_page_number(&self) -> (r: &CodePageNumber)
        ensures
            *r == self@.cpn,
    {
        &self.cpn
    }

    /// The header's disk format code.
    pub fn get_disk_format_code(&self) -> (r: &DiskFormatCode)
        ensures
            *r == self@.dfc,
    {
        &self.dfc
    }

    /// The header's display standard code.
    pub fn get_display_standard_code(&self) -> (r: &DisplayStandardCode)
        ensures
            *r == self@.dsc,
    {
        &self.dsc
    }

    /// The header's character code table.
    pub fn get_character_code_table(&self) -> (r: &CharacterCodeTable)
        ensures
            *r == self@.cct,
    {
        &self.cct
    }

    /// The header's time code status.
    pub fn get_timecode_status(&self) -> (r: &TimeCodeStatus)
        ensures
            *r == self@.tcs,
    {
        &self.tcs
    }

    /// The header's total number of text and timing blocks.
    pub fn get_total_number_of_text_and_timing_blocks(&self) -> (r: u16)
        ensures
            r == self@.tnb,
    {
        self.tnb
    }

    /// The header's total number of subtitles.
    pub fn get_total_number_of_subtitles(&self) -> (r: u16)
        ensures
            r == self@.tns,
    {
        self.tns
    }

    /// The header's total number of subtitle groups.
    pub fn get_total_number_of_chars_in_row(&self) -> (r: u16)
        ensures
            r == self@.tng,
    {
        self.tng
    }

    /// The header's maximum number of displayable characters in a row.
    pub fn get_max_number_of_chars_in_row(&self) -> (r: u16)
        ensures
            r == self@.mnc,
    {
        self.mnc
    }

    /// The header's maximum number of displayable rows.
    pub fn get_max_number_of_rows(&self) -> (r: u16)
        ensures
            r == self@.mnr,
    {
        self.mnr
    }

    /// The header's total number of disks.
    pub fn get_total_number_of_disks(&self) -> (r: u8)
        ensures
            r == self@.tnd,
    {
        self.tnd
    }

    /// The header's disk sequence number.
    pub fn get_disk_sequence_number(&self) -> (r: u8)
        ensures
            r == self@.dsn,
    {
        self.dsn
    }

    /// The header's language code, decoded through its code page.
    pub fn get_language_code(&self) -> (r: String)
        ensures
            r@ == cp_decode(cpn_value(self@.cpn), self@.lc),
    {
        decode_codepage(self.cpn.value(), self.lc.as_slice())
    }

    /// The header's original program title, decoded through its code page.
    pub fn get_original_program_title(&self) -> (r: String)
        ensures
            r@ == cp_decode(cpn_value(self@.cpn), self@.opt),
    {
        decode_codepage(self.cpn.value(), self.opt.as_slice())
    }

    /// The header's original episode title, decoded through its code page.
    pub fn get_original_episode_title(&self) -> (r: String)
        ensures
            r@ == cp_decode(cpn_value(self@.cpn), self@.oet),
    {
        decode_codepage(self.cpn.value(), self.oet.as_slice())
    }

    /// The header's translated program title, decoded through its code page.
    pub fn get_translated_program_title(&self) -> (r: String)
        ensures
            r@ == cp_decode(cpn_value(self@.cpn), self@.tpt),
    {
        decode_codepage(self.cpn.value(), self.tpt.as_slice())
    }

    /// The header's translated episode title, decoded through its code page.
    pub fn get_translated_episode_title(&self) -> (r: String)
        ensures
            r@ == cp_decode(cpn_value(self@.cpn), self@.tet),
    {
        decode_codepage(self.cpn.value(), self.tet.as_slice())
    }

    /// The header's translator's name, decoded through its code page.
    pub fn get_translators_name(&self) -> (r: String)
        ensures
            r@ == cp_decode(cpn_value(self@.cpn), self@.tn),
    {
        decode_codepage(self.cpn.value(), self.tn.as_slice())
    }

    /// The header's translator's contact details, decoded through its code page.
    pub fn get_translators_contact_details(&self) -> (r: String)
        ensures
            r@ == cp_decode(cpn_value(self@.cpn), self@.tcd),
    {
        decode_codepage(self.cpn.value(), self.tcd.as_slice())
    }

    /// The header's subtitle list reference code, decoded through its code page.
    pub fn get_subtitle_list_reference_code(&self) -> (r: String)
        ensures
            r@ == cp_decode(cpn_value(self@.cpn), self@.slr),
    {
        decode_codepage(self.cpn.value(), self.slr.as_slice())
    }

    /// The header's creation date, decoded through its code page.
    pub fn get_creation_date(&self) -> (r: String)
        ensures
            r@ == cp_decode(cpn_value(self@.cpn), self@.cd),
    {
        decode_codepage(self.cpn.value(), self.cd.as_slice())
    }

    /// The header's revision date, decoded through its code page.
    pub fn get_revision_date(&self) -> (r: String)
        ensures
            r@ == cp_decode(cpn_value(self@.cpn), self@.rd),
    {
        decode_codepage(self.cpn.value(), self.rd.as_slice())
    }

    /// The header's revision number, decoded through its code page.
    pub fn get_revision_number(&self) -> (r: String)
        ensures
            r@ == cp_decode(cpn_value(self@.cpn), self@.rn),
    {
        decode_codepage(self.cpn.value(), self.rn.as_slice())
    }

    /// The header's start-of-programme time code, decoded through its code page.
    pub fn get_timecode_start_of_program(&self) -> (r: String)
        ensures
            r@ == cp_decode(cpn_value(self@.cpn), self@.tcp),
    {
        decode_codepage(self.cpn.value(), self.tcp.as_slice())
    }

    /// The header's first-in-cue time code, decoded through its code page.
    pub fn get_timecode_first_in_cue(&self) -> (r: String)
        ensures
            r@ == cp_decode(cpn_value(self@.cpn), self@.tcf),
    {
        decode_codepage(self.cpn.value(), self.tcf.as_slice())
    }

    /// The header's country of origin, decoded through its code page.
    pub fn get_country_of_origin(&self) -> (r: String)
        ensures
            r@ == cp_decode(cpn_value(self@.cpn), self@.co),
    {
        decode_codepage(self.cpn.value(), self.co.as_slice())
    }

    /// The header's publisher, decoded through its code page.
    pub fn get_publisher(&self) -> (r: String)
        ensures
            r@ == cp_decode(cpn_value(self@.cpn), self@.pub_),
    {
        decode_codepage(self.cpn.value(), self.pub_.as_slice())
    }

    /// The header's editor's name, decoded through its code page.
    pub fn get_editors_name(&self) -> (r: String)
        ensures
            r@ == cp_decode(cpn_value(self@.cpn), self@.en),
    {
        decode_codepage(self.cpn.value(), self.en.as_slice())
    }

    /// The header's editor's contact details, decoded through its code page.
    pub fn get_editors_contact_details(&self) -> (r: String)
        ensures
            r@ == cp_decode(cpn_value(self@.cpn), self@.ecd),
    {
        decode_codepage(self.cpn.value(), self.ecd.as_slice())
    }

    /// The header's user-defined area, decoded through its code page.
    pub fn get_user_defined_area(&self) -> (r: String)
        ensures
            r@ == cp_decode(cpn_value(self@.cpn), self@.uda),
    {
        decode_codepage(self.cpn.value(), self.uda.as_slice())
    }

}

impl GsiBlock {
    /// Advances the block counter and the subtitle counter by one each, as
    /// appending one subtitle record requires.
    pub(crate) fn count_new_subtitle(&mut self)
        requires
            old(self)@.tnb < 0xffff,
            old(self)@.tns < 0xffff,
        ensures
            final(self)@ == (GsiView {
                tnb: (old(self)@.tnb + 1) as u16,
                tns: (old(self)@.tns + 1) as u16,
                ..old(self)@
            }),
    {
        self.tnb = self.tnb + 1;
        self.tns = self.tns + 1;
        proof {
            assert(self@ =~= (GsiView {
                tnb: (old(self)@.tnb + 1) as u16,
                tns: (old(self)@.tns + 1) as u16,
                ..old(self)@
            }));
        }
    }
}

impl Default for GsiBlock {
    /// Same as [`GsiBlock::new`].
    fn default() -> (r: Self)
        ensures
            gsi_wf(r@),
            fresh_gsi(r@),
    {
        GsiBlock::new()
    }
}


} // verus!
