//! The two checksum schemes of the wire protocols.
//!
//! The text-family frames carry a table-free CRC-32 (reflected polynomial
//! `0xEDB88320`, seed and final XOR `0xFFFFFFFF`, the zlib/PNG variant).
//! The binary-family frames carry an Adler-32 style checksum (running sums
//! modulo 65521). Both are pure functions of the input bytes; their spec
//! functions below are the reference definitions the codecs' contracts use.

use vstd::prelude::*;

verus! {

/// One shift-and-conditionally-xor round of the reflected CRC-32.
pub open spec fn crc32_round(r: u32) -> u32 {
    if r & 1 == 1 {
        (r >> 1) ^ 0xEDB88320u32
    } else {
        r >> 1
    }
}

/// `n` CRC-32 rounds applied to `r`.
pub open spec fn crc32_rounds(r: u32, n: nat) -> u32
    decreases n,
{
    if n == 0 {
        r
    } else {
        crc32_round(crc32_rounds(r, (n - 1) as nat))
    }
}

/// Folding one byte into the CRC-32 state: xor it in, then eight rounds.
pub open spec fn crc32_fold_byte(r: u32, b: u8) -> u32 {
    crc32_rounds(r ^ (b as u32), 8)
}

/// CRC-32 register state after processing `s`, starting from the seed.
pub open spec fn crc32_state(s: Seq<u8>) -> u32
    decreases s.len(),
{
    if s.len() == 0 {
        0xFFFFFFFFu32
    } else {
        crc32_fold_byte(crc32_state(s.drop_last()), s.last())
    }
}

/// The CRC-32 of `s`: final state xored with `0xFFFFFFFF`.
pub open spec fn spec_crc32(s: Seq<u8>) -> u32 {
    crc32_state(s) ^ 0xFFFFFFFFu32
}

/// The Adler-style running sums `(a, b)` over `s`, both reduced mod 65521.
pub open spec fn adler_sums(s: Seq<u8>) -> (int, int)
    decreases s.len(),
{
    if s.len() == 0 {
        (1int, 0int)
    } else {
        let prev = adler_sums(s.drop_last());
        let a = (prev.0 + s.last()) % 65521;
        let b = (prev.1 + a) % 65521;
        (a, b)
    }
}

/// The Adler-32 style checksum of `s`: high half `b`, low half `a`.
pub open spec fn spec_crc32_adler(s: Seq<u8>) -> u32 {
    (adler_sums(s).1 * 0x10000 + adler_sums(s).0) as u32
}

/// Both running sums stay below the modulus.
pub proof fn lemma_adler_sums_bounded(s: Seq<u8>)
    ensures
        0 <= adler_sums(s).0 < 65521,
        0 <= adler_sums(s).1 < 65521,
    decreases s.len(),
{
    if s.len() == 0 {
    } else {
        lemma_adler_sums_bounded(s.drop_last());
    }
}

/// CRC-32 of `buf`, the zlib/PNG variant used by the text-family codec.
pub fn crc32(buf: &[u8]) -> (r: u32)
    ensures
        r == spec_crc32(buf@),
{
    let mut r: u32 = 0xFFFFFFFF;
    let mut i: usize = 0;
    while i < buf.len()
        invariant
            i <= buf.len(),
            r == crc32_state(buf@.take(i as int)),
        decreases buf.len() - i,
    {
        let b = buf[i];
        let mut rr: u32 = r ^ (b as u32);
        let mut k: usize = 0;
        while k < 8
            invariant
                k <= 8,
                rr == crc32_rounds(r ^ (b as u32), k as nat),
        decreases 8 - k,
        {
            if rr & 1 == 1 {
                rr = (rr >> 1) ^ 0xEDB88320;
            } else {
                rr = rr >> 1;
            }
            k = k + 1;
        }
        proof {
            assert(rr == crc32_fold_byte(crc32_state(buf@.take(i as int)), b));
            assert(buf@.take(i + 1).drop_last() =~= buf@.take(i as int));
            assert(buf@.take(i + 1).last() == b);
        }
        r = rr;
        i = i + 1;
    }
    proof {
        assert(buf@.take(buf@.len() as int) =~= buf@);
    }
    r ^ 0xFFFFFFFF
}

/// Adler-32 style checksum of `buf`, used by the binary-family codecs.
pub fn crc32_adler(buf: &[u8]) -> (r: u32)
    ensures
        r == spec_crc32_adler(buf@),
{
    let mut a: u32 = 1;
    let mut b: u32 = 0;
    let mut i: usize = 0;
    proof {
        lemma_adler_sums_bounded(buf@.take(0));
    }
    while i < buf.len()
        invariant
            i <= buf.len(),
            a == adler_sums(buf@.take(i as int)).0,
            b == adler_sums(buf@.take(i as int)).1,
            a < 65521,
            b < 65521,
        decreases buf.len() - i,
    {
        let x = buf[i];
        a = (a + (x as u32)) % 65521;
        b = (b + a) % 65521;
        proof {
            assert(buf@.take(i + 1).drop_last() =~= buf@.take(i as int));
            assert(buf@.take(i + 1).last() == x);
        }
        i = i + 1;
    }
    proof {
        assert(buf@.take(buf@.len() as int) =~= buf@);
        lemma_adler_sums_bounded(buf@);
    }
    b * 0x10000 + a
}

} // verus!
