//! Checksums of the image container: CRC-32 and Adler-32.
//!
//! Both are computed bit- and byte-exactly as their standards define them:
//! CRC-32 (the PNG chunk checksum) with the reflected polynomial
//! `0xEDB88320`, one bit at a time; Adler-32 (the zlib stream checksum)
//! with its two running sums modulo 65521.  The centralised byte-level
//! definitions here keep length and checksum logic out of the pixel code.

use vstd::prelude::*;

verus! {

/// One bit step of the reflected CRC-32.
pub open spec fn crc_bit(c: u32) -> u32 {
    if c & 1 == 1 {
        (c >> 1) ^ 0xEDB88320u32
    } else {
        c >> 1
    }
}

/// `n` bit steps of the reflected CRC-32.
pub open spec fn crc_bits(c: u32, n: nat) -> u32
    decreases n,
{
    if n == 0 {
        c
    } else {
        crc_bits(crc_bit(c), (n - 1) as nat)
    }
}

/// One byte step: fold the byte in, then eight bit steps.
pub open spec fn crc_byte(c: u32, b: u8) -> u32 {
    crc_bits(c ^ (b as u32), 8)
}

/// The CRC register after absorbing all of `d`, starting from `c`.
pub open spec fn crc_accum(c: u32, d: Seq<u8>) -> u32
    decreases d.len(),
{
    if d.len() == 0 {
        c
    } else {
        crc_accum(crc_byte(c, d[0]), d.skip(1))
    }
}

/// The CRC-32 of `d`: register seeded and finally complemented with all
/// ones.
pub open spec fn crc32_spec(d: Seq<u8>) -> u32 {
    crc_accum(0xFFFFFFFFu32, d) ^ 0xFFFFFFFFu32
}

/// The CRC-32 of the bytes of `d`.
pub fn crc32(d: &Vec<u8>) -> (r: u32)
    ensures
        r == crc32_spec(d@),
{
    let mut c: u32 = 0xFFFFFFFF;
    let n = d.len();
    let mut i: usize = 0;
    proof {
        assert(d@.skip(0) =~= d@);
    }
    while i < n
        invariant
            i <= n,
            n == d@.len(),
            crc_accum(0xFFFFFFFFu32, d@) == crc_accum(c, d@.skip(i as int)),
        decreases n - i,
    {
        let ghost before = c;
        let ghost start = c ^ (d@[i as int] as u32);
        let mut c2: u32 = c ^ (d[i] as u32);
        let mut k: usize = 0;
        while k < 8
            invariant
                k <= 8,
                c2 == crc_bits(start, k as nat),
            decreases 8 - k,
        {
            proof {
                lemma_crc_bits_snoc(start, k as nat);
            }
            if c2 & 1 == 1 {
                c2 = (c2 >> 1) ^ 0xEDB88320;
            } else {
                c2 = c2 >> 1;
            }
            k = k + 1;
        }
        c = c2;
        proof {
            assert(c == crc_byte(before, d@[i as int]));
            assert(d@.skip(i as int)[0] == d@[i as int]);
            assert(d@.skip(i as int).skip(1) =~= d@.skip(i + 1));
        }
        i = i + 1;
    }
    proof {
        assert(d@.skip(n as int) =~= Seq::<u8>::empty());
    }
    c ^ 0xFFFFFFFF
}

/// Applying one more bit step appends at the end of the fold: the
/// register after `n + 1` steps is one step beyond the register after
/// `n`.
proof fn lemma_crc_bits_snoc(c: u32, n: nat)
    ensures
        crc_bits(c, n + 1) == crc_bit(crc_bits(c, n)),
    decreases n,
{
    assert(crc_bits(c, n + 1) == crc_bits(crc_bit(c), n));
    if n == 0 {
        assert(crc_bits(crc_bit(c), 0) == crc_bit(c));
        assert(crc_bits(c, 0) == c);
    } else {
        lemma_crc_bits_snoc(crc_bit(c), (n - 1) as nat);
        assert(crc_bits(c, n) == crc_bits(crc_bit(c), (n - 1) as nat));
    }
}

/// The two Adler-32 running sums after absorbing all of `d`.
pub open spec fn adler_pair(a: int, b: int, d: Seq<u8>) -> (int, int)
    decreases d.len(),
{
    if d.len() == 0 {
        (a, b)
    } else {
        let a2 = (a + d[0]) % 65521;
        adler_pair(a2, (b + a2) % 65521, d.skip(1))
    }
}

/// The Adler-32 of `d`: high sum in the upper half, low sum in the lower.
pub open spec fn adler32_spec(d: Seq<u8>) -> u32 {
    (adler_pair(1, 0, d).1 * 65536 + adler_pair(1, 0, d).0) as u32
}

/// The Adler-32 of the bytes of `d`.
pub fn adler32(d: &Vec<u8>) -> (r: u32)
    ensures
        r == adler32_spec(d@),
{
    let mut a: u32 = 1;
    let mut b: u32 = 0;
    let n = d.len();
    let mut i: usize = 0;
    proof {
        assert(d@.skip(0) =~= d@);
    }
    while i < n
        invariant
            i <= n,
            n == d@.len(),
            a < 65521,
            b < 65521,
            adler_pair(1, 0, d@) == adler_pair(a as int, b as int, d@.skip(i as int)),
        decreases n - i,
    {
        a = (a + d[i] as u32) % 65521;
        b = (b + a) % 65521;
        proof {
            assert(d@.skip(i as int)[0] == d@[i as int]);
            assert(d@.skip(i as int).skip(1) =~= d@.skip(i + 1));
        }
        i = i + 1;
    }
    proof {
        assert(d@.skip(n as int) =~= Seq::<u8>::empty());
    }
    b * 65536 + a
}

} // verus!
