//! Small verified helpers for fixed-offset byte work: copying a field out of
//! a buffer, appending one buffer to another, and reading bytes as ASCII
//! characters.

use vstd::prelude::*;
use vstd::slice::{slice_subrange, slice_to_vec};

use crate::decimal::push_char;
use crate::legacy::{all_ascii_bytes, bytes_as_chars};

verus! {

/// Reading a range out of a concatenation: a range inside the left part
/// reads from it, a range inside the right part reads from it, and the right
/// part's exact range reads the whole right part.
pub proof fn lemma_split_concat(a: Seq<u8>, c: Seq<u8>, i: int, j: int)
    requires
        0 <= i <= j <= (a + c).len(),
    ensures
        j <= a.len() ==> (a + c).subrange(i, j) == a.subrange(i, j),
        i >= a.len() ==> (a + c).subrange(i, j) == c.subrange(i - a.len(), j - a.len()),
        (i == a.len() && j == (a + c).len()) ==> (a + c).subrange(i, j) == c,
{
    if j <= a.len() {
        assert((a + c).subrange(i, j) =~= a.subrange(i, j));
    }
    if i >= a.len() {
        assert((a + c).subrange(i, j) =~= c.subrange(i - a.len(), j - a.len()));
    }
    if i == a.len() && j == (a + c).len() {
        assert((a + c).subrange(i, j) =~= c);
    }
}

/// Appends the bytes of a slice to a vector.
pub fn extend_bytes(v: &mut Vec<u8>, b: &[u8])
    ensures
        final(v)@ == old(v)@ + b@,
{
    let mut i: usize = 0;
    while i < b.len()
        invariant
            0 <= i <= b@.len(),
            v@ == old(v)@ + b@.take(i as int),
        decreases b@.len() - i,
    {
        v.push(b[i]);
        proof {
            assert(old(v)@ + b@.take(i as int + 1) =~= (old(v)@ + b@.take(i as int)).push(
                b@[i as int],
            ));
        }
        i = i + 1;
    }
    proof {
        assert(old(v)@ + b@.take(b@.len() as int) =~= old(v)@ + b@);
    }
}

/// Copies `len` bytes at offset `off` out of a buffer.
pub fn read_bytes(b: &[u8], off: usize, len: usize) -> (r: Vec<u8>)
    requires
        off + len <= b@.len(),
    ensures
        r@ == b@.subrange(off as int, off as int + len as int),
{
    let n = b.len();
    proof {
        assert(off + len <= n);
    }
    slice_to_vec(slice_subrange(b, off, off + len))
}

/// A vector of `n` copies of one byte.
pub fn repeat_byte(b: u8, n: usize) -> (r: Vec<u8>)
    ensures
        r@ == Seq::new(n as nat, |i: int| b),
{
    let mut r: Vec<u8> = Vec::new();
    let mut i: usize = 0;
    while i < n
        invariant
            0 <= i <= n,
            r@ == Seq::new(i as nat, |j: int| b),
        decreases n - i,
    {
        r.push(b);
        proof {
            assert(r@ =~= Seq::new((i + 1) as nat, |j: int| b));
        }
        i = i + 1;
    }
    r
}

/// A fresh copy of a byte vector.
pub fn copy_bytes(v: &Vec<u8>) -> (r: Vec<u8>)
    ensures
        r@ == v@,
{
    let r = read_bytes(v.as_slice(), 0, v.len());
    proof {
        assert(v@.subrange(0, v@.len() as int) =~= v@);
    }
    r
}

/// Reads a run of bytes as characters, when every byte is below 0x80.
pub fn ascii_chars(b: &[u8]) -> (r: Option<String>)
    ensures
        match r {
            Some(s) => all_ascii_bytes(b@) && s@ == bytes_as_chars(b@),
            None => !all_ascii_bytes(b@),
        },
{
    let mut s = String::new();
    let mut i: usize = 0;
    while i < b.len()
        invariant
            0 <= i <= b@.len(),
            s@ == bytes_as_chars(b@.take(i as int)),
            forall|j: int| 0 <= j < i ==> (#[trigger] b@[j]) < 0x80,
        decreases b@.len() - i,
    {
        let c = b[i];
        if c >= 0x80 {
            return None;
        }
        push_char(&mut s, c as char);
        proof {
            assert(bytes_as_chars(b@.take(i as int + 1)) =~= bytes_as_chars(
                b@.take(i as int),
            ).push((b@[i as int] as u32) as char));
        }
        i = i + 1;
    }
    proof {
        assert(b@.take(b@.len() as int) =~= b@);
    }
    Some(s)
}

} // verus!
