//! Teletext framing of a record's 112-byte text field.
//!
//! Encoding wraps legacy-encoded text in control bytes: `0x0D` opens a
//! double-height line, `0x0B 0x0B` marks start of text, `0x0A 0x0A 0x8A`
//! closes the text, and `0x8F` fills the remainder of the slot. Content is
//! capped so that the whole field is exactly 112 bytes; overflowing content
//! is silently dropped.
//!
//! Decoding classifies each byte as control or content, decodes each maximal
//! content run through the legacy codec, turns `0x8A` into a line break, and
//! stops at the first `0x8F`.

use vstd::prelude::*;
use vstd::slice::slice_subrange;

use crate::bytesutil::extend_bytes;
use crate::legacy::{
    CharacterCodeTable, all_ascii_chars, chars_as_bytes, decode_legacy, encode_legacy,
    legacy_decode, legacy_encode, lemma_legacy_roundtrip_ascii,
};

verus! {

/// Total length of a record's text field.
pub const TEXT_FIELD_LEN: usize = 112;

/// Greatest length of leading control bytes plus content: three trailing
/// control bytes always follow.
pub const TEXT_BODY_MAX: usize = 109;

/// The byte is a control byte of the framing scheme, not text content.
pub open spec fn is_control_byte(b: u8) -> bool {
    b < 0x20 || (0x80 <= b && b < 0xa0)
}

/// The line break that a `0x8A` control byte decodes to.
pub open spec fn crlf() -> Seq<char> {
    seq!['\r', '\n']
}

/// Decoding of `b` from position `i` on, with the current content run
/// starting at `first`. Content bytes extend the run; a control byte decodes
/// and emits the run, `0x8A` also emits a line break, and `0x8F` ends the
/// whole field. A run still open at the end of the field is dropped.
pub open spec fn tt_decode_from(
    b: Seq<u8>,
    cct: CharacterCodeTable,
    i: int,
    first: int,
) -> Seq<char>
    decreases b.len() - i,
{
    if !(0 <= first <= i && i < b.len()) {
        Seq::empty()
    } else if !is_control_byte(b[i]) {
        tt_decode_from(b, cct, i + 1, first)
    } else {
        let run = if first < i {
            legacy_decode(cct, b.subrange(first, i))
        } else {
            Seq::empty()
        };
        if b[i] == 0x8f {
            run
        } else if b[i] == 0x8a {
            run + crlf() + tt_decode_from(b, cct, i + 1, i + 1)
        } else {
            run + tt_decode_from(b, cct, i + 1, i + 1)
        }
    }
}

/// Text decoded from a whole text field.
pub open spec fn spec_decode_text_field(b: Seq<u8>, cct: CharacterCodeTable) -> Seq<char> {
    tt_decode_from(b, cct, 0, 0)
}

/// The control bytes that open a text field.
pub open spec fn spec_lead(dh: bool) -> Seq<u8> {
    if dh {
        seq![0x0du8, 0x0bu8, 0x0bu8]
    } else {
        seq![0x0bu8, 0x0bu8]
    }
}

/// The framed field holding the already-encoded content `enc`: lead bytes,
/// content capped at 109 bytes together with the lead, the three closing
/// control bytes, and `0x8F` fill up to 112 bytes.
pub open spec fn spec_frame(enc: Seq<u8>, dh: bool) -> Seq<u8> {
    let body = spec_lead(dh) + enc;
    let clipped = if body.len() > 109 {
        body.take(109)
    } else {
        body
    };
    clipped + seq![0x0au8, 0x0au8, 0x8au8] + Seq::new((109 - clipped.len()) as nat, |i: int| 0x8fu8)
}

/// A whole text field encoded from text.
pub open spec fn spec_encode_text_field(
    txt: Seq<char>,
    dh: bool,
    cct: CharacterCodeTable,
) -> Seq<u8> {
    spec_frame(legacy_encode(cct, txt), dh)
}

/// Encodes text into a fresh 112-byte text field. The second result says
/// whether the whole encoded text fit: when it is false, content past the
/// 109-byte body cap was dropped.
pub fn encode_text_field(txt: &str, dh: bool, cct: CharacterCodeTable) -> (r: (Vec<u8>, bool))
    ensures
        r.0@ == spec_encode_text_field(txt@, dh, cct),
        r.0@.len() == TEXT_FIELD_LEN,
        r.1 == (spec_lead(dh).len() + legacy_encode(cct, txt@).len() <= 109),
{
    let enc = encode_legacy(cct, txt);
    let mut v: Vec<u8> = Vec::new();
    if dh {
        v.push(0x0d);
    }
    v.push(0x0b);
    v.push(0x0b);
    proof {
        assert(v@ =~= spec_lead(dh));
    }
    let fit = enc.len() <= TEXT_BODY_MAX - v.len();
    extend_bytes(&mut v, enc.as_slice());
    proof {
        assert(v@ == spec_lead(dh) + enc@);
    }
    if v.len() > TEXT_BODY_MAX {
        v.truncate(TEXT_BODY_MAX);
        proof {
            assert(v@ =~= (spec_lead(dh) + enc@).take(109));
        }
    }
    let ghost clipped = v@;
    v.push(0x0a);
    v.push(0x0a);
    v.push(0x8a);
    let ghost based = v@;
    proof {
        assert(based =~= clipped + seq![0x0au8, 0x0au8, 0x8au8]);
    }
    while v.len() < TEXT_FIELD_LEN
        invariant
            based.len() <= v@.len() <= TEXT_FIELD_LEN,
            based.len() == clipped.len() + 3,
            clipped.len() <= 109,
            v@ == based + Seq::new((v@.len() - based.len()) as nat, |i: int| 0x8fu8),
        decreases TEXT_FIELD_LEN - v@.len(),
    {
        v.push(0x8f);
        proof {
            assert(v@ =~= based + Seq::new((v@.len() - based.len()) as nat, |i: int| 0x8fu8));
        }
    }
    proof {
        assert(v@ =~= spec_encode_text_field(txt@, dh, cct));
    }
    (v, fit)
}

/// Decodes a text field. Never fails: unmappable content is substituted and
/// a malformed frame at worst yields an empty or partial string.
pub fn decode_text_field(tf: &[u8], cct: CharacterCodeTable) -> (r: String)
    ensures
        r@ == spec_decode_text_field(tf@, cct),
{
    let mut result = String::new();
    let mut first: usize = 0;
    let mut i: usize = 0;
    while i < tf.len()
        invariant_except_break
            0 <= first <= i <= tf@.len(),
            result@ + tt_decode_from(tf@, cct, i as int, first as int) == spec_decode_text_field(
                tf@,
                cct,
            ),
        ensures
            result@ == spec_decode_text_field(tf@, cct),
        decreases tf@.len() - i,
    {
        let c = tf[i];
        if c < 0x20 || (c >= 0x80 && c < 0xa0) {
            let ghost run = if first < i {
                legacy_decode(cct, tf@.subrange(first as int, i as int))
            } else {
                Seq::<char>::empty()
            };
            if first != i {
                let piece = decode_legacy(cct, slice_subrange(tf, first, i));
                result.append(piece.as_str());
            } else {
                proof {
                    assert(result@ + run =~= result@);
                }
            }
            if c == 0x8f {
                proof {
                    assert(tt_decode_from(tf@, cct, i as int, first as int) == run);
                }
                break;
            }
            if c == 0x8a {
                result.append("\r\n");
                proof {
                    reveal_strlit("\r\n");
                    assert("\r\n"@ =~= crlf());
                    assert(tt_decode_from(tf@, cct, i as int, first as int) == run + crlf()
                        + tt_decode_from(tf@, cct, i as int + 1, i as int + 1));
                }
            } else {
                proof {
                    assert(tt_decode_from(tf@, cct, i as int, first as int) == run
                        + tt_decode_from(tf@, cct, i as int + 1, i as int + 1));
                }
            }
            first = i + 1;
        }
        i = i + 1;
    }
    proof {
        if i == tf@.len() {
            assert(tt_decode_from(tf@, cct, i as int, first as int) == Seq::<char>::empty());
            assert(result@ + Seq::<char>::empty() =~= result@);
        }
    }
    result
}

/// Stepping over a run of content bytes leaves the decoding unchanged.
proof fn lemma_decode_skip_content(
    b: Seq<u8>,
    cct: CharacterCodeTable,
    i: int,
    j: int,
    first: int,
)
    requires
        0 <= first <= i <= j <= b.len(),
        forall|k: int| i <= k < j ==> !is_control_byte(#[trigger] b[k]),
    ensures
        tt_decode_from(b, cct, i, first) == tt_decode_from(b, cct, j, first),
    decreases j - i,
{
    if i < j {
        lemma_decode_skip_content(b, cct, i + 1, j, first);
    }
}

/// Decoding stops at the first field terminator: two fields that agree up to
/// and including a `0x8F` at position `k` decode to the same text, whatever
/// either holds after `k`.
pub proof fn lemma_decode_stops_at_terminator(
    b1: Seq<u8>,
    b2: Seq<u8>,
    cct: CharacterCodeTable,
    k: int,
)
    requires
        0 <= k < b1.len(),
        k < b2.len(),
        b1.subrange(0, k + 1) == b2.subrange(0, k + 1),
        b1[k] == 0x8f,
    ensures
        spec_decode_text_field(b1, cct) == spec_decode_text_field(b2, cct),
{
    lemma_decode_prefix_agree(b1, b2, cct, k, 0, 0);
}

/// Two fields that agree through a terminator at `k` decode alike from any
/// position at or before `k`.
proof fn lemma_decode_prefix_agree(
    b1: Seq<u8>,
    b2: Seq<u8>,
    cct: CharacterCodeTable,
    k: int,
    i: int,
    first: int,
)
    requires
        0 <= first <= i <= k < b1.len(),
        k < b2.len(),
        b1.subrange(0, k + 1) == b2.subrange(0, k + 1),
        b1[k] == 0x8f,
    ensures
        tt_decode_from(b1, cct, i, first) == tt_decode_from(b2, cct, i, first),
    decreases k - i,
{
    assert forall|j: int| 0 <= j <= k implies b1[j] == b2[j] by {
        let s1 = b1.subrange(0, k + 1);
        let s2 = b2.subrange(0, k + 1);
        assert(s1 == s2);
        assert(s1[j] == b1[j]);
        assert(s2[j] == b2[j]);
    }
    assert forall|lo: int, hi: int| 0 <= lo <= hi <= k + 1 implies b1.subrange(lo, hi)
        == b2.subrange(lo, hi) by {
        assert(b1.subrange(lo, hi) =~= b2.subrange(lo, hi));
    }
    if i == k {
        assert(is_control_byte(b1[k]));
        assert(is_control_byte(b2[k]));
    } else {
        if !is_control_byte(b1[i]) {
            lemma_decode_prefix_agree(b1, b2, cct, k, i + 1, first);
        } else if b1[i] == 0x8f {
        } else {
            lemma_decode_prefix_agree(b1, b2, cct, k, i + 1, i + 1);
        }
    }
}

/// Encoding then decoding printable ASCII text gives the text back, followed
/// by one line break; when the text overflows the body cap, the prefix that
/// fit comes back, with nothing corrupted past the cut.
pub proof fn lemma_teletext_roundtrip(txt: Seq<char>, dh: bool, cct: CharacterCodeTable)
    requires
        forall|i: int| 0 <= i < txt.len() ==> 0x20 <= ((#[trigger] txt[i]) as u32) <= 0x7e,
    ensures
        spec_lead(dh).len() + txt.len() <= 109 ==> spec_decode_text_field(
            spec_encode_text_field(txt, dh, cct),
            cct,
        ) == txt + crlf(),
        spec_lead(dh).len() + txt.len() > 109 ==> spec_decode_text_field(
            spec_encode_text_field(txt, dh, cct),
            cct,
        ) == txt.take(109 - spec_lead(dh).len()) + crlf(),
{
    let lead = spec_lead(dh);
    let ll = lead.len() as int;
    let enc = legacy_encode(cct, txt);
    assert(all_ascii_chars(txt));
    assert(enc == chars_as_bytes(txt));
    let m: int = if txt.len() > 109 - ll {
        109 - ll
    } else {
        txt.len() as int
    };
    let kept = txt.take(m);
    let frame = spec_encode_text_field(txt, dh, cct);

    // The frame is lead bytes, then the kept content, then the closing
    // bytes, then fill.
    let body = lead + enc;
    let clipped = if body.len() > 109 {
        body.take(109)
    } else {
        body
    };
    assert(clipped =~= lead + chars_as_bytes(kept));
    assert(frame =~= (lead + chars_as_bytes(kept)) + seq![0x0au8, 0x0au8, 0x8au8] + Seq::new(
        (109 - (ll + m)) as nat,
        |i: int| 0x8fu8,
    ));
    assert(frame.len() == 112);

    // Frame bytes, position by position.
    assert forall|j: int| ll <= j < ll + m implies !is_control_byte(#[trigger] frame[j]) by {
        assert(frame[j] == chars_as_bytes(kept)[j - ll]);
        assert(0x20 <= (kept[j - ll] as u32) <= 0x7e);
    }
    assert(frame[ll + m] == 0x0a);
    assert(frame[ll + m + 1] == 0x0a);
    assert(frame[ll + m + 2] == 0x8a);

    // Step over the lead.
    if dh {
        assert(frame[0] == 0x0d && frame[1] == 0x0b && frame[2] == 0x0b);
        assert(tt_decode_from(frame, cct, 0, 0) == tt_decode_from(frame, cct, 1, 1));
        assert(tt_decode_from(frame, cct, 1, 1) == tt_decode_from(frame, cct, 2, 2));
        assert(tt_decode_from(frame, cct, 2, 2) == tt_decode_from(frame, cct, 3, 3));
    } else {
        assert(frame[0] == 0x0b && frame[1] == 0x0b);
        assert(tt_decode_from(frame, cct, 0, 0) == tt_decode_from(frame, cct, 1, 1));
        assert(tt_decode_from(frame, cct, 1, 1) == tt_decode_from(frame, cct, 2, 2));
    }
    assert(tt_decode_from(frame, cct, 0, 0) == tt_decode_from(frame, cct, ll, ll));

    // Step over the content run.
    lemma_decode_skip_content(frame, cct, ll, ll + m, ll);

    // The first closing byte emits the content run.
    let run = if ll < ll + m {
        legacy_decode(cct, frame.subrange(ll, ll + m))
    } else {
        Seq::<char>::empty()
    };
    assert(frame.subrange(ll, ll + m) =~= chars_as_bytes(kept));
    assert forall|i: int| 0 <= i < kept.len() implies 0x20 <= ((#[trigger] kept[i]) as u32)
        <= 0x7e by {
        assert(kept[i] == txt[i]);
    }
    lemma_legacy_roundtrip_ascii(cct, kept);
    assert(legacy_encode(cct, kept) == chars_as_bytes(kept));
    assert(run =~= kept);
    assert(tt_decode_from(frame, cct, ll + m, ll) == run + tt_decode_from(
        frame,
        cct,
        ll + m + 1,
        ll + m + 1,
    ));

    // The remaining closing bytes emit the line break and stop.
    assert(tt_decode_from(frame, cct, ll + m + 1, ll + m + 1) == tt_decode_from(
        frame,
        cct,
        ll + m + 2,
        ll + m + 2,
    ));
    if ll + m + 3 < 112 {
        assert(frame[ll + m + 3] == 0x8f);
        assert(tt_decode_from(frame, cct, ll + m + 3, ll + m + 3) == Seq::<char>::empty());
    } else {
        assert(tt_decode_from(frame, cct, ll + m + 3, ll + m + 3) == Seq::<char>::empty());
    }
    assert(tt_decode_from(frame, cct, ll + m + 2, ll + m + 2) == crlf() + Seq::<char>::empty());
    assert(spec_decode_text_field(frame, cct) =~= kept + crlf());
    if lead.len() + txt.len() <= 109 {
        assert(kept =~= txt);
    }
}

} // verus!
