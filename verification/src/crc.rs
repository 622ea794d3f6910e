//! CRC-32 checksum engine over a precomputed 256-entry lookup table
//! (reflected polynomial 0xEDB88320).

use vstd::prelude::*;

verus! {

/// Polynomial (in reversed form) used by CRC-32.
pub const CRC32_POLY: u32 = 0xEDB88320;

/// One bit-reflected polynomial-division step.
pub open spec fn poly_step(v: u32) -> u32 {
    if v & 1 != 0 {
        (v >> 1) ^ CRC32_POLY
    } else {
        v >> 1
    }
}

/// `n` repeated polynomial-division steps applied to `v`.
pub open spec fn poly_iter(v: u32, n: nat) -> u32
    decreases n,
{
    if n == 0 {
        v
    } else {
        poly_step(poly_iter(v, (n - 1) as nat))
    }
}

/// The table entry for byte `b`: 8 polynomial-division steps applied to `b`.
pub open spec fn table_entry(b: u8) -> u32 {
    poly_iter(b as u32, 8)
}

/// One step of the checksum accumulator on input byte `b`.
pub open spec fn crc_step(acc: u32, b: u8) -> u32 {
    table_entry(b ^ (acc & 0xFF) as u8) ^ (acc >> 8)
}

/// The checksum accumulator after consuming all of `s`, starting from `acc`.
pub open spec fn crc_accum(s: Seq<u8>, acc: u32) -> u32
    decreases s.len(),
{
    if s.len() == 0 {
        acc
    } else {
        crc_accum(s.drop_first(), crc_step(acc, s[0]))
    }
}

/// The CRC-32 of a byte span: all-ones initial accumulator, complemented result.
pub open spec fn crc32(s: Seq<u8>) -> u32 {
    !crc_accum(s, 0xFFFFFFFFu32)
}

/// Caches the 256-entry lookup table used by every checksum computation.
pub struct Crc {
    /// Table mapping each byte value to the u32 to XOR the accumulator with.
    table: Vec<u32>,
}

impl Crc {
    /// The table holds exactly the 256 polynomial-derived entries.
    pub closed spec fn wf(&self) -> bool {
        &&& self.table.len() == 256
        &&& forall|i: int| 0 <= i < 256 ==> self.table[i] == table_entry(i as u8)
    }
}

/// Generates the 256-entry lookup table for CRC-32.
pub fn gen_table() -> (t: Vec<u32>)
    ensures
        t.len() == 256,
        forall|i: int| 0 <= i < 256 ==> t[i] == table_entry(i as u8),
{
    let mut t: Vec<u32> = Vec::new();
    let mut i: usize = 0;
    while i < 256
        invariant
            i <= 256,
            t.len() == i,
            forall|k: int| 0 <= k < i ==> t[k] == table_entry(k as u8),
        decreases 256 - i,
    {
        let mut v: u32 = i as u32;
        let mut j: usize = 0;
        while j < 8
            invariant
                j <= 8,
                i < 256,
                v == poly_iter(i as u32, j as nat),
            decreases 8 - j,
        {
            v = if v & 1 != 0 {
                (v >> 1) ^ CRC32_POLY
            } else {
                v >> 1
            };
            j = j + 1;
        }
        t.push(v);
        i = i + 1;
    }
    t
}

/// Create a new Crc engine with its table filled in.
pub fn new() -> (c: Crc)
    ensures
        c.wf(),
{
    Crc { table: gen_table() }
}

impl Crc {
    /// Checksum the given data: the result is a function of the bytes alone,
    /// so it is reproducible across calls and across independently built tables.
    pub fn checksum(&self, data: &[u8]) -> (r: u32)
        requires
            self.wf(),
        ensures
            r == crc32(data@),
    {
        let mut sum: u32 = 0xFFFFFFFFu32;
        let mut k: usize = 0;
        proof {
            assert(data@.skip(0) =~= data@);
        }
        while k < data.len()
            invariant
                self.wf(),
                k <= data@.len(),
                crc_accum(data@.skip(k as int), sum) == crc_accum(data@, 0xFFFFFFFFu32),
            decreases data@.len() - k,
        {
            let b: u8 = data[k];
            let ghost old_sum = sum;
            let low: u32 = sum & 0xFF;
            assert(sum & 0xFF < 256) by (bit_vector);
            let ind: usize = (b ^ (low as u8)) as usize;
            sum = self.table[ind] ^ (sum >> 8);
            proof {
                assert(self.table[ind as int] == table_entry(ind as u8));
                assert(sum == crc_step(old_sum, data@[k as int]));
                let s = data@.skip(k as int);
                assert(s[0] == data@[k as int]);
                assert(s.drop_first() =~= data@.skip(k as int + 1));
            }
            k = k + 1;
        }
        proof {
            assert(data@.skip(data@.len() as int) =~= Seq::<u8>::empty());
        }
        !sum
    }
}

} // verus!
