//! The TTI record block: one fixed 128-byte entry per subtitle, carrying
//! identifiers, raw-byte timecodes, formatting flags, and the 112-byte
//! teletext-framed text field.
//!
//! A record keeps its own copy of the document's character code table so it
//! can decode and encode its text without its header; the text field is kept
//! exactly as framed, ready to write.

use vstd::prelude::*;

use crate::bytesutil::{extend_bytes, lemma_split_concat, read_bytes};
use crate::decimal::{dec_chars, push_char, append_decimal_u32};
use crate::error::{ParseError, ParseErrorView};
use crate::legacy::{CharacterCodeTable, legacy_encode};
use crate::teletext::{
    decode_text_field, encode_text_field, spec_decode_text_field, spec_encode_text_field,
    spec_lead,
};

verus! {

/// Whether a record stands alone or belongs to a cumulative set.
#[derive(Debug, Clone, Copy, PartialEq, Eq, Structural)]
pub enum CumulativeStatus {
    NotPartOfASet,
    FirstInSet,
    IntermediateInSet,
    LastInSet,
}

/// The byte that names a cumulative status in a record.
pub open spec fn cs_byte(c: CumulativeStatus) -> u8 {
    match c {
        CumulativeStatus::NotPartOfASet => 0,
        CumulativeStatus::FirstInSet => 1,
        CumulativeStatus::IntermediateInSet => 2,
        CumulativeStatus::LastInSet => 3,
    }
}

/// The cumulative status named by a record byte, if any.
pub open spec fn spec_parse_cs(b: u8) -> Option<CumulativeStatus> {
    if b == 0 {
        Some(CumulativeStatus::NotPartOfASet)
    } else if b == 1 {
        Some(CumulativeStatus::FirstInSet)
    } else if b == 2 {
        Some(CumulativeStatus::IntermediateInSet)
    } else if b == 3 {
        Some(CumulativeStatus::LastInSet)
    } else {
        None
    }
}

impl CumulativeStatus {
    /// Reads the cumulative status byte; any byte above 3 is an error.
    pub fn parse(d: u8) -> (r: Result<CumulativeStatus, ParseError>)
        ensures
            match r {
                Ok(c) => spec_parse_cs(d) == Some(c),
                Err(e) => spec_parse_cs(d) is None && e@ == ParseErrorView::CumulativeStatus,
            },
    {
        match d {
            0 => Ok(CumulativeStatus::NotPartOfASet),
            1 => Ok(CumulativeStatus::FirstInSet),
            2 => Ok(CumulativeStatus::IntermediateInSet),
            3 => Ok(CumulativeStatus::LastInSet),
            _ => Err(ParseError::CumulativeStatus),
        }
    }

    /// Writes the cumulative status byte.
    pub fn serialize(&self) -> (r: u8)
        ensures
            r == cs_byte(*self),
    {
        match *self {
            CumulativeStatus::NotPartOfASet => 0,
            CumulativeStatus::FirstInSet => 1,
            CumulativeStatus::IntermediateInSet => 2,
            CumulativeStatus::LastInSet => 3,
        }
    }
}

/// Horizontal alignment of subtitle text on screen.
#[derive(Debug, Clone, Copy, PartialEq, Eq, Structural)]
pub enum Justification {
    Unchanged,
    Left,
    Centered,
    Right,
}

/// A timecode: hours, minutes, seconds and a frame count, each one raw byte.
/// The frame count is relative to the document's frame rate and is carried
/// through parse and serialize untouched.
#[derive(Debug, Clone, Copy, PartialEq, Eq, Structural)]
pub struct Time {
    pub hours: u8,
    pub minutes: u8,
    pub seconds: u8,
    pub frames: u8,
}

/// The four raw bytes of a timecode.
pub open spec fn time_bytes(t: Time) -> Seq<u8> {
    seq![t.hours, t.minutes, t.seconds, t.frames]
}

/// The timecode read from four raw bytes.
pub open spec fn spec_parse_time(b: Seq<u8>) -> Time {
    Time { hours: b[0], minutes: b[1], seconds: b[2], frames: b[3] }
}

/// Human-readable form of a timecode at a frame rate: hours, minutes and
/// seconds separated by colons, then a comma and the frame count scaled to
/// milliseconds.
pub open spec fn spec_format_fps(t: Time, fps: int) -> Seq<char> {
    dec_chars(t.hours as int) + seq![':'] + dec_chars(t.minutes as int) + seq![':'] + dec_chars(
        t.seconds as int,
    ) + seq![','] + dec_chars(t.frames as int * 1000 / fps)
}

impl Time {
    /// A timecode from its four parts.
    pub fn new(h: u8, m: u8, s: u8, f: u8) -> (r: Time)
        ensures
            r == (Time { hours: h, minutes: m, seconds: s, frames: f }),
    {
        Time { hours: h, minutes: m, seconds: s, frames: f }
    }

    /// Writes the four raw bytes of the timecode.
    pub fn serialize(&self) -> (r: Vec<u8>)
        ensures
            r@ == time_bytes(*self),
    {
        let mut r: Vec<u8> = Vec::new();
        r.push(self.hours);
        r.push(self.minutes);
        r.push(self.seconds);
        r.push(self.frames);
        proof {
            assert(r@ =~= time_bytes(*self));
        }
        r
    }

    /// Reads a timecode from the first four bytes of a buffer; a shorter
    /// buffer is incomplete.
    pub fn parse(data: &[u8]) -> (r: Result<Time, ParseError>)
        ensures
            match r {
                Ok(t) => data@.len() >= 4 && t == spec_parse_time(data@.subrange(0, 4)),
                Err(e) => data@.len() < 4 && e@ == ParseErrorView::Incomplete,
            },
    {
        if data.len() < 4 {
            return Err(ParseError::Incomplete);
        }
        Ok(Time { hours: data[0], minutes: data[1], seconds: data[2], frames: data[3] })
    }

    /// Renders the timecode for humans at the given frame rate.
    pub fn format_fps(&self, fps: usize) -> (r: String)
        requires
            fps >= 1,
        ensures
            r@ == spec_format_fps(*self, fps as int),
    {
        let mut s = String::new();
        append_decimal_u32(&mut s, self.hours as u32);
        push_char(&mut s, ':');
        append_decimal_u32(&mut s, self.minutes as u32);
        push_char(&mut s, ':');
        append_decimal_u32(&mut s, self.seconds as u32);
        push_char(&mut s, ',');
        proof {
            assert(0 <= (self.frames as int) * 1000 / (fps as int) <= 255000) by (nonlinear_arith)
                requires
                    fps as int >= 1,
                    0 <= self.frames as int <= 255,
            ;
        }
        let ms = (self.frames as u64) * 1000 / (fps as u64);
        append_decimal_u32(&mut s, ms as u32);
        proof {
            assert(ms as int == self.frames as int * 1000 / (fps as int));
            assert(s@ =~= spec_format_fps(*self, fps as int));
        }
        s
    }
}

/// Formatting choices for a newly appended subtitle.
#[derive(Debug, Clone, Copy)]
pub struct TtiFormat {
    /// Justification code.
    pub jc: u8,
    /// Vertical position.
    pub vp: u8,
    /// Double height.
    pub dh: bool,
}

/// Mathematical image of a [`TtiBlock`].
#[verifier::ext_equal]
pub ghost struct TtiView {
    pub sgn: u8,
    pub sn: u16,
    pub ebn: u8,
    pub cs: CumulativeStatus,
    pub tci: Time,
    pub tco: Time,
    pub vp: u8,
    pub jc: u8,
    pub cf: u8,
    pub tf: Seq<u8>,
    pub cct: CharacterCodeTable,
}

/// Well-formedness of a record: its text field fills its 112 bytes.
pub open spec fn tti_wf(t: TtiView) -> bool {
    t.tf.len() == 112
}

/// The 128 bytes of a serialized record: identifiers, cumulative status,
/// the two timecodes, formatting flags, then the text field.
pub open spec fn spec_ser_tti(t: TtiView) -> Seq<u8> {
    seq![t.sgn, (t.sn % 256) as u8, (t.sn / 256) as u8, t.ebn, cs_byte(t.cs)] + time_bytes(t.tci)
        + time_bytes(t.tco) + seq![t.vp, t.jc, t.cf] + t.tf
}

/// The record parsed from the first 128 bytes of a buffer, or the error of
/// the first field that fails. The character code table is the document's,
/// copied into the record.
pub open spec fn spec_parse_tti(b: Seq<u8>, cct: CharacterCodeTable) -> Result<
    TtiView,
    ParseErrorView,
> {
    if b.len() < 5 {
        Err(ParseErrorView::Incomplete)
    } else {
        match spec_parse_cs(b[4]) {
            None => Err(ParseErrorView::CumulativeStatus),
            Some(cs) => if b.len() < 128 {
                Err(ParseErrorView::Incomplete)
            } else {
                Ok(
                    TtiView {
                        sgn: b[0],
                        sn: (b[1] as int + 256 * (b[2] as int)) as u16,
                        ebn: b[3],
                        cs,
                        tci: spec_parse_time(b.subrange(5, 9)),
                        tco: spec_parse_time(b.subrange(9, 13)),
                        vp: b[13],
                        jc: b[14],
                        cf: b[15],
                        tf: b.subrange(16, 128),
                        cct,
                    },
                )
            },
        }
    }
}

/// The record that appending a subtitle builds: fresh identifiers, the given
/// timecodes and formatting, and the text teletext-framed in the document's
/// character code table.
pub open spec fn spec_new_tti(
    idx: u16,
    tci: Time,
    tco: Time,
    txt: Seq<char>,
    jc: u8,
    vp: u8,
    dh: bool,
    cct: CharacterCodeTable,
) -> TtiView {
    TtiView {
        sgn: 0,
        sn: idx,
        ebn: 0xff,
        cs: CumulativeStatus::NotPartOfASet,
        tci,
        tco,
        vp,
        jc,
        cf: 0,
        tf: spec_encode_text_field(txt, dh, cct),
        cct,
    }
}

/// One subtitle record: its identifiers, timecodes, formatting flags, and
/// framed text field, plus the document's character code table.
#[derive(Debug)]
pub struct TtiBlock {
    /// 0 subtitle group number
    sgn: u8,
    /// 1..=2 subtitle number, low byte first
    sn: u16,
    /// 3 extension block number
    ebn: u8,
    /// 4 cumulative status
    cs: CumulativeStatus,
    /// 5..=8 time code in
    tci: Time,
    /// 9..=12 time code out
    tco: Time,
    /// 13 vertical position
    vp: u8,
    /// 14 justification code
    jc: u8,
    /// 15 comment flag
    cf: u8,
    /// 16..=127 text field
    tf: Vec<u8>,
    /// The document's character code table, copied so the record can decode
    /// and encode its own text without its header.
    cct: CharacterCodeTable,
}

impl View for TtiBlock {
    type V = TtiView;

    closed spec fn view(&self) -> TtiView {
        TtiView {
            sgn: self.sgn,
            sn: self.sn,
            ebn: self.ebn,
            cs: self.cs,
            tci: self.tci,
            tco: self.tco,
            vp: self.vp,
            jc: self.jc,
            cf: self.cf,
            tf: self.tf@,
            cct: self.cct,
        }
    }
}

impl TtiBlock {
    /// A fresh record numbered `idx`, holding the given text encoded in
    /// `cct`. Text whose encoding overflows the field's body is silently
    /// truncated; [`TtiBlock::new_reporting`] says when that happened.
    pub fn new(
        idx: u16,
        tci: Time,
        tco: Time,
        txt: &str,
        opt: TtiFormat,
        cct: CharacterCodeTable,
    ) -> (r: TtiBlock)
        ensures
            r@ == spec_new_tti(idx, tci, tco, txt@, opt.jc, opt.vp, opt.dh, cct),
            tti_wf(r@),
    {
        let (r, _) = TtiBlock::new_reporting(idx, tci, tco, txt, opt, cct);
        r
    }

    /// Same as [`TtiBlock::new`], and also reports whether the whole encoded
    /// text fit the field without truncation.
    pub fn new_reporting(
        idx: u16,
        tci: Time,
        tco: Time,
        txt: &str,
        opt: TtiFormat,
        cct: CharacterCodeTable,
    ) -> (r: (TtiBlock, bool))
        ensures
            r.0@ == spec_new_tti(idx, tci, tco, txt@, opt.jc, opt.vp, opt.dh, cct),
            tti_wf(r.0@),
            r.1 == (spec_lead(opt.dh).len() + legacy_encode(cct, txt@).len() <= 109),
    {
        let (tf, fit) = encode_text_field(txt, opt.dh, cct);
        let r = TtiBlock {
            sgn: 0,
            sn: idx,
            ebn: 0xff,
            cs: CumulativeStatus::NotPartOfASet,
            tci,
            tco,
            vp: opt.vp,
            jc: opt.jc,
            cf: 0,
            tf,
            cct,
        };
        proof {
            assert(r@ =~= spec_new_tti(idx, tci, tco, txt@, opt.jc, opt.vp, opt.dh, cct));
        }
        (r, fit)
    }

    /// The record's text, decoded from its framed text field. Never fails;
    /// a malformed field at worst yields an empty or partial string.
    pub fn get_text(&self) -> (r: String)
        ensures
            r@ == spec_decode_text_field(self@.tf, self@.cct),
    {
        decode_text_field(self.tf.as_slice(), self.cct)
    }

    /// The record's subtitle group number.
    pub fn get_subtitle_group_number(&self) -> (r: u8)
        ensures
            r == self@.sgn,
    {
        self.sgn
    }

    /// The record's subtitle number.
    pub fn get_subtitle_number_range(&self) -> (r: u16)
        ensures
            r == self@.sn,
    {
        self.sn
    }

    /// The record's extension block number.
    pub fn get_extension_block_number(&self) -> (r: u8)
        ensures
            r == self@.ebn,
    {
        self.ebn
    }

    /// The record's cumulative status.
    pub fn get_cumulative_status(&self) -> (r: &CumulativeStatus)
        ensures
            *r == self@.cs,
    {
        &self.cs
    }

    /// The record's start timecode.
    pub fn get_time_code_in(&self) -> (r: &Time)
        ensures
            *r == self@.tci,
    {
        &self.tci
    }

    /// The record's end timecode.
    pub fn get_time_code_out(&self) -> (r: &Time)
        ensures
            *r == self@.tco,
    {
        &self.tco
    }

    /// The record's vertical position.
    pub fn get_vertical_position(&self) -> (r: u8)
        ensures
            r == self@.vp,
    {
        self.vp
    }

    /// The record's justification code.
    pub fn get_justification_code(&self) -> (r: u8)
        ensures
            r == self@.jc,
    {
        self.jc
    }

    /// The record's comment flag.
    pub fn get_comment_flag(&self) -> (r: u8)
        ensures
            r == self@.cf,
    {
        self.cf
    }

    /// Writes the record out as its exact 128 bytes.
    pub fn serialize(&self) -> (res: Vec<u8>)
        requires
            tti_wf(self@),
        ensures
            res@ == spec_ser_tti(self@),
            res@.len() == 128,
    {
        let mut res: Vec<u8> = Vec::new();
        res.push(self.sgn);
        res.push((self.sn % 256) as u8);
        res.push((self.sn / 256) as u8);
        res.push(self.ebn);
        res.push(self.cs.serialize());
        let piece = self.tci.serialize();
        extend_bytes(&mut res, piece.as_slice());
        let piece = self.tco.serialize();
        extend_bytes(&mut res, piece.as_slice());
        res.push(self.vp);
        res.push(self.jc);
        res.push(self.cf);
        extend_bytes(&mut res, self.tf.as_slice());
        proof {
            assert(res@ =~= spec_ser_tti(self@));
        }
        res
    }
}

/// Parses one record from the first 128 bytes of a buffer, copying the
/// document's character code table into it. Fails on a short buffer or an
/// invalid cumulative status; never returns a partial record.
pub fn parse_tti_block(input: &[u8], cct: CharacterCodeTable) -> (r: Result<TtiBlock, ParseError>)
    ensures
        match r {
            Ok(t) => spec_parse_tti(input@, cct) == Ok::<TtiView, ParseErrorView>(t@) && tti_wf(
                t@,
            ),
            Err(e) => spec_parse_tti(input@, cct) == Err::<TtiView, ParseErrorView>(e@),
        },
{
    if input.len() < 5 {
        return Err(ParseError::Incomplete);
    }
    let cs = match CumulativeStatus::parse(input[4]) {
        Ok(c) => c,
        Err(e) => {
            return Err(e);
        },
    };
    if input.len() < 128 {
        return Err(ParseError::Incomplete);
    }
    let sn: u16 = input[1] as u16 + 256 * (input[2] as u16);
    let t = TtiBlock {
        sgn: input[0],
        sn,
        ebn: input[3],
        cs,
        tci: Time { hours: input[5], minutes: input[6], seconds: input[7], frames: input[8] },
        tco: Time { hours: input[9], minutes: input[10], seconds: input[11], frames: input[12] },
        vp: input[13],
        jc: input[14],
        cf: input[15],
        tf: read_bytes(input, 16, 112),
        cct,
    };
    proof {
        let sv = spec_parse_tti(input@, cct);
        assert(sv is Ok && sv->Ok_0 =~= t@);
    }
    Ok(t)
}

/// A buffer that opens with the 128 serialized bytes of a well-formed record
/// parses back to that record, whatever follows.
pub proof fn lemma_tti_parse_prefix(t: TtiView, b: Seq<u8>)
    requires
        tti_wf(t),
        b.len() >= 128,
        b.subrange(0, 128) == spec_ser_tti(t),
    ensures
        spec_parse_tti(b, t.cct) == Ok::<TtiView, ParseErrorView>(t),
{
    let c = spec_ser_tti(t);
    let p1 = seq![t.sgn, (t.sn % 256) as u8, (t.sn / 256) as u8, t.ebn, cs_byte(t.cs)];
    let p2 = time_bytes(t.tci);
    let p3 = time_bytes(t.tco);
    let p4 = seq![t.vp, t.jc, t.cf];
    let p5 = t.tf;
    let s2 = p1 + p2;
    let s3 = s2 + p3;
    let s4 = s3 + p4;
    let s5 = s4 + p5;
    assert(c == s5);
    assert(c.len() == 128);
    assert(c.subrange(16, 128) == p5) by {
        lemma_split_concat(s4, p5, 16, 128);
    }
    assert forall|i: int, j: int| 0 <= i <= j <= 16 implies c.subrange(i, j) == s4.subrange(
        i,
        j,
    ) by {
        lemma_split_concat(s4, p5, i, j);
    }
    assert forall|i: int, j: int| 0 <= i <= j <= 13 implies c.subrange(i, j) == s3.subrange(
        i,
        j,
    ) by {
        lemma_split_concat(s3, p4, i, j);
    }
    assert(c.subrange(9, 13) == p3) by {
        lemma_split_concat(s2, p3, 9, 13);
    }
    assert forall|i: int, j: int| 0 <= i <= j <= 9 implies c.subrange(i, j) == s2.subrange(
        i,
        j,
    ) by {
        lemma_split_concat(s2, p3, i, j);
    }
    assert(c.subrange(5, 9) == p2) by {
        lemma_split_concat(p1, p2, 5, 9);
    }

    // The same ranges read the same bytes out of the longer buffer.
    assert forall|i: int, j: int| 0 <= i <= j <= 128 implies b.subrange(i, j) == c.subrange(
        i,
        j,
    ) by {
        assert(b.subrange(i, j) =~= c.subrange(i, j)) by {
            assert forall|k: int| 0 <= k < j - i implies b.subrange(i, j)[k] == c.subrange(
                i,
                j,
            )[k] by {
                assert(b.subrange(0, 128)[i + k] == b[i + k]);
                assert(c[i + k] == b.subrange(0, 128)[i + k]);
            }
        }
    }
    assert forall|k: int| 0 <= k < 5 implies b[k] == p1[k] by {
        assert(b.subrange(0, 5) == c.subrange(0, 5));
        assert(c.subrange(0, 5) == s2.subrange(0, 5));
        assert(s2.subrange(0, 5) =~= p1);
        assert(b.subrange(0, 5)[k] == b[k]);
    }
    assert forall|k: int| 13 <= k < 16 implies b[k] == p4[k - 13] by {
        assert(b.subrange(13, 16) == c.subrange(13, 16));
        assert(c.subrange(13, 16) == s4.subrange(13, 16));
        lemma_split_concat(s3, p4, 13, 16);
        assert(b.subrange(13, 16)[k - 13] == b[k]);
    }
    assert(b.subrange(5, 9) == p2);
    assert(b.subrange(9, 13) == p3);
    assert(b.subrange(16, 128) == p5);
    assert(spec_parse_cs(cs_byte(t.cs)) == Some(t.cs));
    let lo = (t.sn % 256) as u8;
    let hi = (t.sn / 256) as u8;
    assert(lo as int + 256 * (hi as int) == t.sn as int) by (nonlinear_arith)
        requires
            lo as int == t.sn as int % 256,
            hi as int == t.sn as int / 256,
    ;
    assert(spec_parse_time(b.subrange(5, 9)) == t.tci);
    assert(spec_parse_time(b.subrange(9, 13)) == t.tco);
    let parsed = spec_parse_tti(b, t.cct);
    assert(parsed is Ok);
    assert(parsed->Ok_0 =~= t);
}

/// A well-formed record survives a serialize/parse round trip unchanged,
/// under the character code table it carries.
pub proof fn lemma_tti_roundtrip(t: TtiView)
    requires
        tti_wf(t),
    ensures
        spec_parse_tti(spec_ser_tti(t), t.cct) == Ok::<TtiView, ParseErrorView>(t),
{
    assert(spec_ser_tti(t).len() == 128);
    assert(spec_ser_tti(t).subrange(0, 128) =~= spec_ser_tti(t));
    lemma_tti_parse_prefix(t, spec_ser_tti(t));
}

} // verus!
