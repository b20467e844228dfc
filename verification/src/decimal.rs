//! Fixed-width, zero-padded ASCII decimal fields, and plain decimal
//! rendering for human-readable output.
//!
//! The header block stores its counters as fixed-width runs of ASCII digits;
//! this module gives the exact byte-level meaning of those runs in both
//! directions and proves that they invert each other.

use vstd::prelude::*;

verus! {

/// The byte is an ASCII digit.
pub open spec fn is_digit(b: u8) -> bool {
    0x30 <= b <= 0x39
}

/// Every byte of the run is an ASCII digit.
pub open spec fn all_digits(s: Seq<u8>) -> bool {
    forall|i: int| 0 <= i < s.len() ==> is_digit(#[trigger] s[i])
}

/// Numeric value of a run of ASCII digits, most significant first.
pub open spec fn digits_val(s: Seq<u8>) -> int
    decreases s.len(),
{
    if s.len() == 0 {
        0
    } else {
        digits_val(s.drop_last()) * 10 + (s.last() - 0x30)
    }
}

/// `10^w` (1 for non-positive `w`).
pub open spec fn pow10(w: int) -> int
    decreases w,
{
    if w <= 0 {
        1
    } else {
        10 * pow10(w - 1)
    }
}

/// `v` rendered as exactly `width` ASCII digits, zero-padded on the left.
pub open spec fn dec_bytes(v: int, width: int) -> Seq<u8>
    decreases width,
{
    if width <= 0 {
        Seq::empty()
    } else {
        dec_bytes(v / 10, width - 1).push((0x30 + v % 10) as u8)
    }
}

/// A rendering has exactly its width, whatever the value.
pub proof fn lemma_dec_bytes_len(v: int, w: int)
    requires
        0 <= w,
    ensures
        dec_bytes(v, w).len() == w,
    decreases w,
{
    if w > 0 {
        lemma_dec_bytes_len(v / 10, w - 1);
    }
}

/// A value below `10^w` renders to `w` digits that read back as the value.
pub proof fn lemma_dec_bytes_props(v: int, w: int)
    requires
        0 <= v < pow10(w),
        0 <= w,
    ensures
        dec_bytes(v, w).len() == w,
        all_digits(dec_bytes(v, w)),
        digits_val(dec_bytes(v, w)) == v,
    decreases w,
{
    if w == 0 {
        assert(dec_bytes(v, 0) =~= Seq::<u8>::empty());
    } else {
        assert(v / 10 < pow10(w - 1) && v / 10 >= 0 && 0 <= v % 10 <= 9) by (nonlinear_arith)
            requires
                0 <= v < 10 * pow10(w - 1),
                pow10(w - 1) >= 1,
        ;
        lemma_pow10_pos(w - 1);
        lemma_dec_bytes_props(v / 10, w - 1);
        let prefix = dec_bytes(v / 10, w - 1);
        let whole = dec_bytes(v, w);
        assert(whole.drop_last() =~= prefix);
        assert(digits_val(whole) == v) by {
            assert(v == 10 * (v / 10) + v % 10) by (nonlinear_arith);
        }
        assert forall|i: int| 0 <= i < whole.len() implies is_digit(#[trigger] whole[i]) by {
            if i < prefix.len() {
                assert(whole[i] == prefix[i]);
            }
        }
    }
}

/// `10^w` is positive.
pub proof fn lemma_pow10_pos(w: int)
    ensures
        pow10(w) >= 1,
    decreases w,
{
    if w > 0 {
        lemma_pow10_pos(w - 1);
    }
}

/// A run of digits has a value below `10^len`.
pub proof fn lemma_digits_val_bound(s: Seq<u8>)
    requires
        all_digits(s),
    ensures
        0 <= digits_val(s) < pow10(s.len() as int),
    decreases s.len(),
{
    if s.len() > 0 {
        assert(all_digits(s.drop_last())) by {
            assert(forall|i: int|
                0 <= i < s.len() - 1 ==> #[trigger] s.drop_last()[i] == s[i]);
        }
        lemma_digits_val_bound(s.drop_last());
        let p = digits_val(s.drop_last());
        assert(p * 10 + 9 < 10 * pow10(s.len() - 1)) by (nonlinear_arith)
            requires
                0 <= p < pow10(s.len() - 1),
        ;
    }
}

/// Renders `v` as exactly `width` ASCII digits, zero-padded on the left.
/// The value must fit in the width.
pub fn format_decimal(v: u16, width: usize) -> (r: Vec<u8>)
    requires
        (v as int) < pow10(width as int),
    ensures
        r@ == dec_bytes(v as int, width as int),
        r@.len() == width,
    decreases width,
{
    proof {
        lemma_dec_bytes_props(v as int, width as int);
    }
    if width == 0 {
        Vec::new()
    } else {
        proof {
            lemma_pow10_pos(width as int - 1);
            assert((v as int) / 10 < pow10(width as int - 1)) by (nonlinear_arith)
                requires
                    (v as int) < 10 * pow10(width as int - 1),
                    pow10(width as int - 1) >= 1,
            ;
        }
        let mut r = format_decimal(v / 10, width - 1);
        r.push(0x30 + (v % 10) as u8);
        r
    }
}

/// Reads a fixed-width run as a decimal number: the value if every byte is
/// an ASCII digit, nothing otherwise.
pub fn parse_decimal(s: &[u8]) -> (r: Option<u32>)
    requires
        s@.len() <= 5,
    ensures
        match r {
            Some(v) => all_digits(s@) && v as int == digits_val(s@),
            None => !all_digits(s@),
        },
{
    let mut v: u32 = 0;
    let mut i: usize = 0;
    while i < s.len()
        invariant
            0 <= i <= s@.len() <= 5,
            v as int == digits_val(s@.take(i as int)),
            0 <= (v as int) < pow10(i as int),
            forall|j: int| 0 <= j < i ==> is_digit(#[trigger] s@[j]),
        decreases s@.len() - i,
    {
        let b = s[i];
        if b < 0x30 || b > 0x39 {
            return None;
        }
        proof {
            let t = s@.take(i as int + 1);
            assert(t.drop_last() =~= s@.take(i as int));
            assert(t.last() == s@[i as int]);
            assert(pow10(5) == 100000) by {
                reveal_with_fuel(pow10, 6);
            }
            lemma_pow10_monotonic(i as int + 1, 5);
            assert((v as int) * 10 + (b - 0x30) < 10 * pow10(i as int)) by (nonlinear_arith)
                requires
                    0 <= (v as int) < pow10(i as int),
                    0 <= b - 0x30 <= 9,
            ;
        }
        v = v * 10 + (b - 0x30) as u32;
        i = i + 1;
    }
    proof {
        assert(s@.take(i as int) =~= s@);
    }
    Some(v)
}

/// `10^a <= 10^b` when `a <= b`.
pub proof fn lemma_pow10_monotonic(a: int, b: int)
    requires
        a <= b,
    ensures
        pow10(a) <= pow10(b),
    decreases b - a,
{
    if a < b {
        lemma_pow10_monotonic(a, b - 1);
        lemma_pow10_pos(b - 1);
    }
}

/// The character for a decimal digit.
pub open spec fn digit_char(d: int) -> char {
    (0x30 + d) as char
}

/// `v` rendered as a plain decimal character run, no padding, no sign
/// (meaningful for non-negative `v`).
pub open spec fn dec_chars(v: int) -> Seq<char>
    decreases v,
{
    if v < 10 {
        seq![digit_char(v)]
    } else {
        dec_chars(v / 10).push(digit_char(v % 10))
    }
}

/// Appends one character to a string.
///
/// Relies on `String::push` of std: appends the given character to the end
/// of the string.
#[verifier::external_body]
pub fn push_char(s: &mut String, c: char)
    ensures
        final(s)@ == old(s)@.push(c),
{
    s.push(c);
}

/// Renders `v` in plain decimal, appending to `out`.
pub fn append_decimal_u32(out: &mut String, v: u32)
    ensures
        final(out)@ == old(out)@ + dec_chars(v as int),
    decreases v,
{
    if v < 10 {
        push_char(out, (0x30 + v as u8) as char);
        proof {
            assert(old(out)@ + dec_chars(v as int) =~= old(out)@.push(digit_char(v as int)));
        }
    } else {
        append_decimal_u32(out, v / 10);
        push_char(out, (0x30 + (v % 10) as u8) as char);
        proof {
            assert(old(out)@ + dec_chars(v as int) =~= (old(out)@ + dec_chars(v as int / 10)).push(
                digit_char(v as int % 10),
            ));
        }
    }
}

} // verus!
