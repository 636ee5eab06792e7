//! Little-endian field access over packed byte buffers.
//!
//! Every on-disk integer is little-endian and may sit at any byte offset,
//! so all reads go byte-wise through these helpers; none assumes alignment.

use vstd::bytes::spec_u16_from_le_bytes;
use vstd::bytes::spec_u16_to_le_bytes;
use vstd::bytes::spec_u32_from_le_bytes;
use vstd::bytes::spec_u32_to_le_bytes;
use vstd::bytes::spec_u64_from_le_bytes;
use vstd::bytes::spec_u64_to_le_bytes;
use vstd::bytes::u16_from_le_bytes;
use vstd::bytes::u16_to_le_bytes;
use vstd::bytes::u32_from_le_bytes;
use vstd::bytes::u32_to_le_bytes;
use vstd::bytes::u64_from_le_bytes;
use vstd::bytes::u64_to_le_bytes;
use vstd::prelude::*;
use vstd::slice::slice_index_get;
use vstd::slice::slice_subrange;
use vstd::slice::slice_to_vec;

verus! {

/// The `u16` stored little-endian at byte offset `off` of `b`.
pub open spec fn le16(b: Seq<u8>, off: int) -> u16 {
    spec_u16_from_le_bytes(b.subrange(off, off + 2))
}

/// The `u32` stored little-endian at byte offset `off` of `b`.
pub open spec fn le32(b: Seq<u8>, off: int) -> u32 {
    spec_u32_from_le_bytes(b.subrange(off, off + 4))
}

/// The `u64` stored little-endian at byte offset `off` of `b`.
pub open spec fn le64(b: Seq<u8>, off: int) -> u64 {
    spec_u64_from_le_bytes(b.subrange(off, off + 8))
}

/// Reads the byte at offset `off`.
pub fn read_u8(b: &[u8], off: usize) -> (r: u8)
    requires
        off < b@.len(),
    ensures
        r == b@[off as int],
{
    *slice_index_get(b, off)
}

/// Reads the little-endian `u16` at offset `off`.
pub fn read_u16(b: &[u8], off: usize) -> (r: u16)
    requires
        off + 2 <= b@.len(),
    ensures
        r == le16(b@, off as int),
{
    let n = b.len();
    proof { assert(off + 2 <= n); }
    u16_from_le_bytes(slice_subrange(b, off, off + 2))
}

/// Reads the little-endian `u32` at offset `off`.
pub fn read_u32(b: &[u8], off: usize) -> (r: u32)
    requires
        off + 4 <= b@.len(),
    ensures
        r == le32(b@, off as int),
{
    let n = b.len();
    proof { assert(off + 4 <= n); }
    u32_from_le_bytes(slice_subrange(b, off, off + 4))
}

/// Reads the little-endian `u64` at offset `off`.
pub fn read_u64(b: &[u8], off: usize) -> (r: u64)
    requires
        off + 8 <= b@.len(),
    ensures
        r == le64(b@, off as int),
{
    let n = b.len();
    proof { assert(off + 8 <= n); }
    u64_from_le_bytes(slice_subrange(b, off, off + 8))
}

/// Copies `n` bytes starting at offset `off` into a fresh vector.
pub fn read_vec(b: &[u8], off: usize, n: usize) -> (r: Vec<u8>)
    requires
        off + n <= b@.len(),
    ensures
        r@ == b@.subrange(off as int, off + n),
{
    let m = b.len();
    proof { assert(off + n <= m); }
    slice_to_vec(slice_subrange(b, off, off + n))
}

/// Appends one byte.
pub fn put_u8(out: &mut Vec<u8>, x: u8)
    ensures
        final(out)@ == old(out)@ + seq![x],
{
    out.push(x);
    proof {
        assert(final(out)@ =~= old(out)@ + seq![x]);
    }
}

/// Appends a `u16` as two little-endian bytes.
pub fn put_u16(out: &mut Vec<u8>, x: u16)
    ensures
        final(out)@ == old(out)@ + spec_u16_to_le_bytes(x),
{
    let mut s = u16_to_le_bytes(x);
    out.append(&mut s);
}

/// Appends a `u32` as four little-endian bytes.
pub fn put_u32(out: &mut Vec<u8>, x: u32)
    ensures
        final(out)@ == old(out)@ + spec_u32_to_le_bytes(x),
{
    let mut s = u32_to_le_bytes(x);
    out.append(&mut s);
}

/// Appends a `u64` as eight little-endian bytes.
pub fn put_u64(out: &mut Vec<u8>, x: u64)
    ensures
        final(out)@ == old(out)@ + spec_u64_to_le_bytes(x),
{
    let mut s = u64_to_le_bytes(x);
    out.append(&mut s);
}

/// The little-endian encoding of a sequence of `u64` values, in order.
pub open spec fn u64s_le_bytes(s: Seq<u64>) -> Seq<u8>
    decreases s.len(),
{
    if s.len() == 0 {
        Seq::empty()
    } else {
        u64s_le_bytes(s.drop_last()) + spec_u64_to_le_bytes(s.last())
    }
}

/// Reads `n` consecutive little-endian `u64` values starting at `off`.
pub fn read_u64s(b: &[u8], off: usize, n: usize) -> (r: Vec<u64>)
    requires
        off + 8 * n <= b@.len(),
    ensures
        r@.len() == n,
        forall|i: int| 0 <= i < n ==> r@[i] == le64(b@, off + 8 * i),
{
    let m = b.len();
    let mut r: Vec<u64> = Vec::new();
    let mut i: usize = 0;
    while i < n
        invariant
            off + 8 * n <= m == b@.len() <= usize::MAX,
            i <= n,
            r@.len() == i,
            forall|j: int| 0 <= j < i ==> r@[j] == le64(b@, off + 8 * j),
        decreases n - i,
    {
        r.push(read_u64(b, off + 8 * i));
        i = i + 1;
    }
    r
}

/// Appends every value of `v` as eight little-endian bytes.
pub fn put_u64s(out: &mut Vec<u8>, v: &Vec<u64>)
    ensures
        final(out)@ == old(out)@ + u64s_le_bytes(v@),
{
    let n = v.len();
    let mut i: usize = 0;
    proof {
        assert(v@.subrange(0, 0) =~= Seq::<u64>::empty());
        assert(out@ =~= old(out)@ + u64s_le_bytes(v@.subrange(0, 0)));
    }
    while i < n
        invariant
            n == v@.len(),
            i <= n,
            out@ == old(out)@ + u64s_le_bytes(v@.subrange(0, i as int)),
        decreases n - i,
    {
        put_u64(out, v[i]);
        proof {
            let s = v@.subrange(0, i + 1);
            assert(s.drop_last() =~= v@.subrange(0, i as int));
            assert(s.last() == v@[i as int]);
            assert(out@ =~= old(out)@ + u64s_le_bytes(v@.subrange(0, i + 1)));
        }
        i = i + 1;
    }
    proof {
        assert(v@.subrange(0, v@.len() as int) =~= v@);
    }
}

/// A run of `u64` fields decoded from `b` re-encodes to the very bytes
/// it was read from.
pub proof fn lemma_u64s_round_trip(b: Seq<u8>, off: int, s: Seq<u64>)
    requires
        0 <= off,
        off + 8 * s.len() <= b.len(),
        forall|i: int| 0 <= i < s.len() ==> s[i] == le64(b, off + 8 * i),
    ensures
        u64s_le_bytes(s) == b.subrange(off, off + 8 * s.len()),
    decreases s.len(),
{
    vstd::bytes::lemma_auto_spec_u64_to_from_le_bytes();
    if s.len() == 0 {
        assert(u64s_le_bytes(s) =~= b.subrange(off, off));
    } else {
        let t = s.drop_last();
        lemma_u64s_round_trip(b, off, t);
        let k = s.len() - 1;
        assert(s.last() == le64(b, off + 8 * k));
        assert(spec_u64_to_le_bytes(s.last()) == b.subrange(off + 8 * k, off + 8 * k + 8));
        assert(u64s_le_bytes(s) =~= b.subrange(off, off + 8 * s.len()));
    }
}

/// Appends every byte of `b`.
pub fn put_bytes(out: &mut Vec<u8>, b: &[u8])
    ensures
        final(out)@ == old(out)@ + b@,
{
    let mut i: usize = 0;
    while i < b.len()
        invariant
            i <= b@.len(),
            out@ == old(out)@ + b@.subrange(0, i as int),
        decreases b@.len() - i,
    {
        let x = *slice_index_get(b, i);
        out.push(x);
        proof {
            assert(b@.subrange(0, i + 1) =~= b@.subrange(0, i as int).push(x));
        }
        i = i + 1;
    }
    proof {
        assert(b@.subrange(0, b@.len() as int) =~= b@);
    }
}

} // verus!
