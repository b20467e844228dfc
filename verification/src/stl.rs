//! The document assembler: one header block followed by one or more subtitle
//! records, parsed from and serialized to a single buffer.
//!
//! Parsing reads the header, then records until the buffer ends; a header
//! with no records at all is a failure, and one bad record fails the whole
//! document. Appending a subtitle advances the header's counters and encodes
//! the text into a fresh record numbered by the block counter.

use vstd::prelude::*;

use crate::bytesutil::{extend_bytes, lemma_split_concat};
use crate::error::{ParseError, ParseErrorView};
use crate::gsi::{GsiBlock, GsiView, fresh_gsi, gsi_wf, parse_gsi_block, spec_parse_gsi, spec_ser_gsi};
use crate::legacy::{CharacterCodeTable, legacy_encode};
use crate::teletext::spec_lead;
use crate::tti::{
    Time, TtiBlock, TtiFormat, TtiView, parse_tti_block, spec_new_tti, spec_parse_tti,
    spec_ser_tti, tti_wf,
};

verus! {

/// Mathematical image of an [`Stl`] document.
#[verifier::ext_equal]
pub ghost struct StlView {
    pub gsi: GsiView,
    pub ttis: Seq<TtiView>,
}

/// The images of a run of records.
pub open spec fn tti_views(v: Seq<TtiBlock>) -> Seq<TtiView> {
    Seq::new(v.len(), |i: int| v[i]@)
}

/// Well-formedness of a document: the header and every record are
/// well-formed, and every record carries the header's character code table.
pub open spec fn stl_wf(d: StlView) -> bool {
    &&& gsi_wf(d.gsi)
    &&& forall|i: int| 0 <= i < d.ttis.len() ==> tti_wf(#[trigger] d.ttis[i])
    &&& forall|i: int| 0 <= i < d.ttis.len() ==> (#[trigger] d.ttis[i]).cct == d.gsi.cct
}

/// The serialized bytes of a run of records, in order.
pub open spec fn spec_ser_ttis(ts: Seq<TtiView>) -> Seq<u8>
    decreases ts.len(),
{
    if ts.len() == 0 {
        Seq::empty()
    } else {
        spec_ser_tti(ts[0]) + spec_ser_ttis(ts.drop_first())
    }
}

/// A run of well-formed records serializes to 128 bytes per record.
pub proof fn lemma_ser_ttis_len(ts: Seq<TtiView>)
    requires
        forall|i: int| 0 <= i < ts.len() ==> tti_wf(#[trigger] ts[i]),
    ensures
        spec_ser_ttis(ts).len() == 128 * ts.len(),
    decreases ts.len(),
{
    if ts.len() > 0 {
        assert(spec_ser_tti(ts[0]).len() == 128);
        assert(forall|i: int|
            0 <= i < ts.drop_first().len() ==> tti_wf(#[trigger] ts.drop_first()[i]));
        lemma_ser_ttis_len(ts.drop_first());
    }
}

/// The serialized bytes of a whole document: the header, then each record.
pub open spec fn spec_ser_stl(d: StlView) -> Seq<u8> {
    spec_ser_gsi(d.gsi) + spec_ser_ttis(d.ttis)
}

/// Records parsed one after another until the buffer ends. An empty buffer
/// is a complete (empty) run; anything else must begin a record, and a bad
/// or short record fails the run.
pub open spec fn spec_parse_tti_list(rest: Seq<u8>, cct: CharacterCodeTable) -> Result<
    Seq<TtiView>,
    ParseErrorView,
>
    decreases rest.len(),
{
    if rest.len() == 0 {
        Ok(Seq::empty())
    } else {
        match spec_parse_tti(rest, cct) {
            Err(e) => Err(e),
            Ok(t) => if rest.len() < 128 {
                Err(ParseErrorView::Incomplete)
            } else {
                match spec_parse_tti_list(rest.skip(128), cct) {
                    Err(e) => Err(e),
                    Ok(ts) => Ok(seq![t] + ts),
                }
            },
        }
    }
}

/// The document parsed from a whole buffer: one header, then records to the
/// end of the buffer, of which there must be at least one.
pub open spec fn spec_parse_stl(b: Seq<u8>) -> Result<StlView, ParseErrorView> {
    match spec_parse_gsi(b) {
        Err(e) => Err(e),
        Ok(g) => if b.len() == 1024 {
            Err(ParseErrorView::Unknown)
        } else {
            match spec_parse_tti_list(b.skip(1024), g.cct) {
                Err(e) => Err(e),
                Ok(ts) => Ok(StlView { gsi: g, ttis: ts }),
            }
        },
    }
}

/// The document after appending one subtitle: both counters advanced, and a
/// new record numbered by the advanced block counter, encoded in the
/// header's character code table.
pub open spec fn spec_add_sub(
    d: StlView,
    tci: Time,
    tco: Time,
    txt: Seq<char>,
    jc: u8,
    vp: u8,
    dh: bool,
) -> StlView {
    StlView {
        gsi: GsiView { tnb: (d.gsi.tnb + 1) as u16, tns: (d.gsi.tns + 1) as u16, ..d.gsi },
        ttis: d.ttis.push(
            spec_new_tti((d.gsi.tnb + 1) as u16, tci, tco, txt, jc, vp, dh, d.gsi.cct),
        ),
    }
}

/// A subtitle document: one header block and its subtitle records, in
/// presentation order.
#[derive(Debug)]
pub struct Stl {
    pub gsi: GsiBlock,
    pub ttis: Vec<TtiBlock>,
}

impl View for Stl {
    type V = StlView;

    open spec fn view(&self) -> StlView {
        StlView { gsi: self.gsi@, ttis: tti_views(self.ttis@) }
    }
}

impl Stl {
    /// A fresh document: a default header and no records yet.
    pub fn new() -> (r: Stl)
        ensures
            gsi_wf(r@.gsi),
            fresh_gsi(r@.gsi),
            r@.ttis == Seq::<TtiView>::empty(),
            stl_wf(r@),
    {
        let r = Stl { gsi: GsiBlock::new(), ttis: Vec::new() };
        proof {
            assert(r@.ttis =~= Seq::<TtiView>::empty());
        }
        r
    }

    /// Appends one subtitle: advances the header's counters and adds a
    /// record numbered by the new block counter, holding the text encoded in
    /// the header's character code table. Returns whether the whole encoded
    /// text fit its field; when it did not, the overflow was dropped.
    pub fn add_sub(&mut self, tci: Time, tco: Time, txt: &str, opt: TtiFormat) -> (fit: bool)
        requires
            old(self)@.gsi.tnb < 0xffff,
            old(self)@.gsi.tns < 0xffff,
        ensures
            final(self)@ == spec_add_sub(old(self)@, tci, tco, txt@, opt.jc, opt.vp, opt.dh),
            fit == (spec_lead(opt.dh).len() + legacy_encode(old(self)@.gsi.cct, txt@).len()
                <= 109),
    {
        self.gsi.count_new_subtitle();
        let sn = self.gsi.get_total_number_of_text_and_timing_blocks();
        let cct = *self.gsi.get_character_code_table();
        let (tti, fit) = TtiBlock::new_reporting(sn, tci, tco, txt, opt, cct);
        self.ttis.push(tti);
        proof {
            assert(self@.ttis =~= tti_views(old(self).ttis@).push(tti@));
            assert(self@ =~~= spec_add_sub(old(self)@, tci, tco, txt@, opt.jc, opt.vp, opt.dh));
        }
        fit
    }

    /// Writes the whole document out: the header's 1024 bytes, then each
    /// record's 128 bytes in order.
    pub fn serialize(&self) -> (res: Vec<u8>)
        requires
            stl_wf(self@),
        ensures
            res@ == spec_ser_stl(self@),
            res@.len() == 1024 + 128 * self@.ttis.len(),
    {
        let ghost views = tti_views(self.ttis@);
        let mut res = self.gsi.serialize();
        let mut k: usize = 0;
        proof {
            assert(views.skip(0) =~= views);
        }
        while k < self.ttis.len()
            invariant
                0 <= k <= self.ttis@.len(),
                views == tti_views(self.ttis@),
                stl_wf(self@),
                res@ + spec_ser_ttis(views.skip(k as int)) == spec_ser_stl(self@),
            decreases self.ttis@.len() - k,
        {
            proof {
                assert(tti_wf(views[k as int]));
                assert(views[k as int] == self.ttis@[k as int]@);
            }
            let piece = self.ttis[k].serialize();
            extend_bytes(&mut res, piece.as_slice());
            proof {
                let rest = views.skip(k as int);
                assert(rest[0] == views[k as int]);
                assert(rest.drop_first() =~= views.skip(k as int + 1));
                assert(spec_ser_ttis(rest) == spec_ser_tti(views[k as int]) + spec_ser_ttis(
                    views.skip(k as int + 1),
                ));
                assert(res@ + spec_ser_ttis(views.skip(k as int + 1)) =~= spec_ser_stl(self@));
            }
            k = k + 1;
        }
        proof {
            assert(views.skip(views.len() as int) =~= Seq::<TtiView>::empty());
            assert(res@ =~= spec_ser_stl(self@));
            lemma_ser_ttis_len(views);
            crate::gsi::lemma_ser_gsi_len(self@.gsi);
        }
        res
    }
}

impl Default for Stl {
    /// Same as [`Stl::new`].
    fn default() -> (r: Self)
        ensures
            gsi_wf(r@.gsi),
            fresh_gsi(r@.gsi),
            r@.ttis == Seq::<TtiView>::empty(),
            stl_wf(r@),
    {
        Stl::new()
    }
}

/// Parses a whole buffer as a document: a header, then records to the end
/// of the buffer. Requires at least one record; fails atomically on the
/// first bad field with no partial document.
pub fn parse_stl_from_slice(input: &[u8]) -> (r: Result<Stl, ParseError>)
    ensures
        match r {
            Ok(d) => spec_parse_stl(input@) == Ok::<StlView, ParseErrorView>(d@) && stl_wf(d@)
                && d@.ttis.len() >= 1,
            Err(e) => spec_parse_stl(input@) == Err::<StlView, ParseErrorView>(e@),
        },
{
    let gsi = match parse_gsi_block(input) {
        Ok(g) => g,
        Err(e) => {
            return Err(e);
        },
    };
    proof {
        assert(input@.len() >= 1024);
    }
    if input.len() == 1024 {
        return Err(ParseError::Unknown);
    }
    let cct = *gsi.get_character_code_table();
    let mut ttis: Vec<TtiBlock> = Vec::new();
    let mut i: usize = 1024;
    proof {
        assert(tti_views(ttis@) + spec_parse_tti_list(input@.skip(1024), cct)->Ok_0 =~= (
        spec_parse_tti_list(input@.skip(1024), cct))->Ok_0);
    }
    while i < input.len()
        invariant
            1024 <= i <= input@.len(),
            input@.len() > 1024,
            spec_parse_gsi(input@) == Ok::<GsiView, ParseErrorView>(gsi@),
            cct == gsi@.cct,
            tti_views(ttis@).len() * 128 == i - 1024,
            forall|j: int|
                0 <= j < ttis@.len() ==> tti_wf(#[trigger] ttis@[j]@) && ttis@[j]@.cct == cct,
            spec_parse_tti_list(input@.skip(1024), cct) == (match spec_parse_tti_list(
                input@.skip(i as int),
                cct,
            ) {
                Ok(ts) => Ok::<Seq<TtiView>, ParseErrorView>(tti_views(ttis@) + ts),
                Err(e) => Err::<Seq<TtiView>, ParseErrorView>(e),
            }),
        decreases input@.len() - i,
    {
        let ghost rest = input@.skip(i as int);
        let t = match parse_tti_block(vstd::slice::slice_subrange(input, i, input.len()), cct) {
            Ok(t) => t,
            Err(e) => {
                proof {
                    assert(input@.subrange(i as int, input@.len() as int) =~= rest);
                    assert(spec_parse_tti_list(rest, cct) == Err::<Seq<TtiView>, ParseErrorView>(
                        e@,
                    ));
                }
                return Err(e);
            },
        };
        proof {
            assert(input@.subrange(i as int, input@.len() as int) =~= rest);
            assert(spec_parse_tti(rest, cct) == Ok::<TtiView, ParseErrorView>(t@));
            assert(rest.len() >= 128);
        }
        let ghost tv_old = tti_views(ttis@);
        ttis.push(t);
        proof {
            assert(tti_views(ttis@) =~= tv_old + seq![t@]);
            assert(rest.skip(128) =~= input@.skip(i as int + 128));
            let tail = spec_parse_tti_list(rest.skip(128), cct);
            assert(spec_parse_tti_list(rest, cct) == (match tail {
                Ok(ts) => Ok::<Seq<TtiView>, ParseErrorView>(seq![t@] + ts),
                Err(e) => Err::<Seq<TtiView>, ParseErrorView>(e),
            }));
            if tail is Ok {
                assert(tv_old + (seq![t@] + tail->Ok_0) =~= (tv_old + seq![t@]) + tail->Ok_0);
            }
        }
        i = i + 128;
    }
    proof {
        assert(input@.skip(i as int) =~= Seq::<u8>::empty());
        assert(spec_parse_tti_list(input@.skip(i as int), cct) == Ok::<
            Seq<TtiView>,
            ParseErrorView,
        >(Seq::empty()));
        assert(tti_views(ttis@) + Seq::<TtiView>::empty() =~= tti_views(ttis@));
    }
    let d = Stl { gsi, ttis };
    proof {
        let sv = spec_parse_stl(input@);
        assert(sv is Ok && sv->Ok_0 =~~= d@);
    }
    Ok(d)
}

/// A run of well-formed records that all carry `cct` survives a
/// serialize/parse round trip unchanged.
proof fn lemma_ttis_roundtrip(ts: Seq<TtiView>, cct: CharacterCodeTable)
    requires
        forall|i: int| 0 <= i < ts.len() ==> tti_wf(#[trigger] ts[i]),
        forall|i: int| 0 <= i < ts.len() ==> (#[trigger] ts[i]).cct == cct,
    ensures
        spec_parse_tti_list(spec_ser_ttis(ts), cct) == Ok::<Seq<TtiView>, ParseErrorView>(ts),
    decreases ts.len(),
{
    if ts.len() == 0 {
        assert(spec_ser_ttis(ts) =~= Seq::<u8>::empty());
        assert(ts =~= Seq::<TtiView>::empty());
    } else {
        let b = spec_ser_ttis(ts);
        let first = spec_ser_tti(ts[0]);
        let rest = ts.drop_first();
        assert(b == first + spec_ser_ttis(rest));
        assert(first.len() == 128);
        lemma_ser_ttis_len(rest);
        assert(b.subrange(0, 128) == first) by {
            lemma_split_concat(first, spec_ser_ttis(rest), 0, 128);
            assert(first.subrange(0, 128) =~= first);
        }
        crate::tti::lemma_tti_parse_prefix(ts[0], b);
        assert(b.skip(128) =~= spec_ser_ttis(rest)) by {
            lemma_split_concat(first, spec_ser_ttis(rest), 128, b.len() as int);
        }
        lemma_ttis_roundtrip(rest, cct);
        assert(spec_parse_tti(b, cct) == Ok::<TtiView, ParseErrorView>(ts[0])) by {
            assert(ts[0].cct == cct);
        }
        assert(spec_parse_tti_list(b.skip(128), cct) == Ok::<Seq<TtiView>, ParseErrorView>(rest));
        assert(spec_parse_tti_list(b, cct) == Ok::<Seq<TtiView>, ParseErrorView>(
            seq![ts[0]] + rest,
        ));
        assert(seq![ts[0]] + rest =~= ts);
    }
}

/// Parsing a document back from its own serialization reproduces it, field
/// for field. This holds of every well-formed document with at least one
/// record, and so of every document that a parse produced.
pub proof fn lemma_stl_roundtrip(d: StlView)
    requires
        stl_wf(d),
        d.ttis.len() >= 1,
    ensures
        spec_parse_stl(spec_ser_stl(d)) == Ok::<StlView, ParseErrorView>(d),
{
    let b = spec_ser_stl(d);
    let head = spec_ser_gsi(d.gsi);
    let tail = spec_ser_ttis(d.ttis);
    crate::gsi::lemma_ser_gsi_len(d.gsi);
    lemma_ser_ttis_len(d.ttis);
    assert(b.len() == 1024 + 128 * d.ttis.len());
    assert(b.subrange(0, 1024) == head) by {
        lemma_split_concat(head, tail, 0, 1024);
        assert(head.subrange(0, 1024) =~= head);
    }
    crate::gsi::lemma_gsi_parse_prefix(d.gsi, b);
    assert(b.len() != 1024);
    assert(b.skip(1024) =~= tail) by {
        lemma_split_concat(head, tail, 1024, b.len() as int);
    }
    lemma_ttis_roundtrip(d.ttis, d.gsi.cct);
    let parsed = spec_parse_stl(b);
    assert(parsed is Ok);
    assert(parsed->Ok_0 =~~= d);
}

/// On a document whose counters stand at zero, the first appended subtitle
/// becomes record number 1 and a second appended subtitle becomes record
/// number 2, whatever group, times, text or formatting either carries.
pub proof fn lemma_append_numbers_fresh(
    d: StlView,
    tci1: Time,
    tco1: Time,
    txt1: Seq<char>,
    jc1: u8,
    vp1: u8,
    dh1: bool,
    tci2: Time,
    tco2: Time,
    txt2: Seq<char>,
    jc2: u8,
    vp2: u8,
    dh2: bool,
)
    requires
        d.gsi.tnb == 0,
        d.gsi.tns == 0,
    ensures
        ({
            let d1 = spec_add_sub(d, tci1, tco1, txt1, jc1, vp1, dh1);
            let d2 = spec_add_sub(d1, tci2, tco2, txt2, jc2, vp2, dh2);
            &&& d1.ttis.last().sn == 1
            &&& d2.ttis.last().sn == 2
            &&& d2.ttis[d2.ttis.len() - 2].sn == 1
        }),
{
}

} // verus!
