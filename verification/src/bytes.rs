//! Big-endian 32-bit integer reads and writes over byte sequences.

use vstd::prelude::*;

verus! {

/// The big-endian u32 held in the first four bytes of `s`
/// (meaningful only when `s` has at least four elements).
pub open spec fn be32(s: Seq<u8>) -> u32 {
    ((s[0] as u32) << 24) | ((s[1] as u32) << 16) | ((s[2] as u32) << 8) | (s[3] as u32)
}

/// The four big-endian bytes of `v`.
pub open spec fn be32_bytes(v: u32) -> Seq<u8> {
    seq![
        ((v >> 24) & 0xFF) as u8,
        ((v >> 16) & 0xFF) as u8,
        ((v >> 8) & 0xFF) as u8,
        (v & 0xFF) as u8,
    ]
}

/// `be32` looks only at the first four bytes.
pub proof fn lemma_be32_first4(a: Seq<u8>, b: Seq<u8>)
    requires
        a.len() >= 4,
        b.len() >= 4,
        a[0] == b[0],
        a[1] == b[1],
        a[2] == b[2],
        a[3] == b[3],
    ensures
        be32(a) == be32(b),
{
}

/// Reading back the four big-endian bytes of `v` yields `v`.
pub proof fn lemma_be32_roundtrip(v: u32)
    ensures
        be32_bytes(v).len() == 4,
        be32(be32_bytes(v)) == v,
{
    assert((v >> 24) & 0xFF < 256) by (bit_vector);
    assert((v >> 16) & 0xFF < 256) by (bit_vector);
    assert((v >> 8) & 0xFF < 256) by (bit_vector);
    assert(v & 0xFF < 256) by (bit_vector);
    assert((((v >> 24) & 0xFF) << 24) | (((v >> 16) & 0xFF) << 16) | (((v >> 8) & 0xFF) << 8) | (
    v & 0xFF) == v) by (bit_vector);
}

/// Re-encoding the u32 read from the front of `s` yields the first four
/// bytes of `s`.
pub proof fn lemma_be32_bytes_of(s: Seq<u8>)
    requires
        s.len() >= 4,
    ensures
        be32_bytes(be32(s)) =~= seq![s[0], s[1], s[2], s[3]],
{
    let b0 = s[0] as u32;
    let b1 = s[1] as u32;
    let b2 = s[2] as u32;
    let b3 = s[3] as u32;
    assert((((b0 << 24) | (b1 << 16) | (b2 << 8) | b3) >> 24) & 0xFF == b0 && (((b0 << 24) | (b1
        << 16) | (b2 << 8) | b3) >> 16) & 0xFF == b1 && (((b0 << 24) | (b1 << 16) | (b2 << 8)
        | b3) >> 8) & 0xFF == b2 && ((b0 << 24) | (b1 << 16) | (b2 << 8) | b3) & 0xFF == b3)
        by (bit_vector)
        requires
            b0 < 256 && b1 < 256 && b2 < 256 && b3 < 256,
    ;
}

/// Read the big-endian u32 at offset `pos` of `data`.
pub fn read_be_u32(data: &[u8], pos: usize) -> (r: u32)
    requires
        pos + 4 <= data@.len(),
    ensures
        r == be32(data@.skip(pos as int)),
{
    let b0: u32 = data[pos] as u32;
    let b1: u32 = data[pos + 1] as u32;
    let b2: u32 = data[pos + 2] as u32;
    let b3: u32 = data[pos + 3] as u32;
    let r: u32 = (b0 << 24) | (b1 << 16) | (b2 << 8) | b3;
    proof {
        let s = data@.skip(pos as int);
        assert(s[0] == data@[pos as int]);
        assert(s[1] == data@[pos as int + 1]);
        assert(s[2] == data@[pos as int + 2]);
        assert(s[3] == data@[pos as int + 3]);
    }
    r
}

} // verus!
