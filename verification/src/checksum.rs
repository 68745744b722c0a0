//! Byte encodings and the two checksums used by state fingerprints: the CRC32
//! (IEEE) checksum of the `crc32fast` crate, and a 64-bit FNV-1a hash folded to
//! 32 bits.

use vstd::prelude::*;

verus! {

/// The CRC32 (IEEE) checksum of a byte sequence, as `crc32fast::hash` computes it.
pub uninterp spec fn crc32_of(bytes: Seq<u8>) -> u32;

/// `crc32fast::hash` returns the CRC32 (IEEE) checksum of the bytes it is given;
/// the result depends on those bytes alone, and this states no more of it.
pub assume_specification[ crc32fast::hash ](buf: &[u8]) -> (checksum: u32)
    ensures
        checksum == crc32_of(buf@),
;

/// The `n` low bytes of `x`, least significant first.
pub open spec fn le_bytes(x: nat, n: nat) -> Seq<u8>
    decreases n,
{
    if n == 0 {
        Seq::empty()
    } else {
        seq![(x % 256) as u8] + le_bytes(x / 256, (n - 1) as nat)
    }
}

/// Appends the `n` low bytes of `x`, least significant first.
pub fn push_le(v: &mut Vec<u8>, x: u64, n: u64)
    ensures
        final(v)@ == old(v)@ + le_bytes(x as nat, n as nat),
    decreases n,
{
    if n > 0 {
        v.push((x % 256) as u8);
        push_le(v, x / 256, n - 1);
        proof {
            assert(final(v)@ =~= old(v)@ + le_bytes(x as nat, n as nat));
        }
    }
}

/// Appends the bytes of a slice.
pub fn push_bytes(v: &mut Vec<u8>, bytes: &[u8])
    ensures
        final(v)@ == old(v)@ + bytes@,
{
    let ghost start = v@;
    let mut i: usize = 0;
    while i < bytes.len()
        invariant
            i <= bytes@.len(),
            v@ == start + bytes@.subrange(0, i as int),
        decreases bytes@.len() - i,
    {
        v.push(bytes[i]);
        proof {
            assert(bytes@.subrange(0, i + 1) =~= bytes@.subrange(0, i as int).push(bytes@[i as int]));
        }
        i = i + 1;
    }
    proof {
        assert(bytes@.subrange(0, bytes@.len() as int) =~= bytes@);
    }
}

/// Appends the UTF-8 encoding of a string.
pub fn push_str_bytes(v: &mut Vec<u8>, s: &str)
    ensures
        final(v)@ == old(v)@ + vstd::utf8::encode_utf8(s@),
{
    let b = s.as_bytes();
    push_bytes(v, b);
}

/// The CRC32 checksum of the bytes gathered so far.
pub fn crc32(bytes: &Vec<u8>) -> (c: u32)
    ensures
        c == crc32_of(bytes@),
{
    crc32fast::hash(bytes.as_slice())
}

/// The offset basis of 64-bit FNV-1a.
pub open spec fn fnv_offset() -> u64 {
    0xcbf2_9ce4_8422_2325
}

/// The prime of 64-bit FNV-1a.
pub open spec fn fnv_prime() -> u64 {
    0x0100_0000_01b3
}

/// One FNV-1a step: xor the byte in, then multiply modulo 2^64.
pub open spec fn fnv_step(state: u64, byte: u8) -> u64 {
    (((state ^ (byte as u64)) as nat * fnv_prime() as nat) % 0x1_0000_0000_0000_0000) as u64
}

/// FNV-1a over a byte sequence, from a given state.
pub open spec fn fnv_fold(state: u64, bytes: Seq<u8>) -> u64
    decreases bytes.len(),
{
    if bytes.len() == 0 {
        state
    } else {
        fnv_fold(fnv_step(state, bytes[0]), bytes.drop_first())
    }
}

/// The 32-bit fold of a 64-bit hash state: the high half xored into the low half.
pub open spec fn fold_to_u32(state: u64) -> u32 {
    (state ^ (state >> 32u64)) as u32
}

/// The 32-bit FNV-1a fingerprint of a byte sequence.
pub open spec fn fnv32(bytes: Seq<u8>) -> u32 {
    fold_to_u32(fnv_fold(fnv_offset(), bytes))
}

proof fn lemma_fnv_fold_push(state: u64, bytes: Seq<u8>, b: u8)
    ensures
        fnv_fold(state, bytes.push(b)) == fnv_step(fnv_fold(state, bytes), b),
    decreases bytes.len(),
{
    if bytes.len() == 0 {
        assert(bytes.push(b).drop_first() =~= Seq::<u8>::empty());
        assert(bytes.push(b)[0] == b);
        assert(fnv_fold(fnv_step(state, b), Seq::<u8>::empty()) == fnv_step(state, b));
    } else {
        assert(bytes.push(b)[0] == bytes[0]);
        assert(bytes.push(b).drop_first() =~= bytes.drop_first().push(b));
        lemma_fnv_fold_push(fnv_step(state, bytes[0]), bytes.drop_first(), b);
    }
}

/// The 32-bit FNV-1a fingerprint of the given bytes.
pub fn fnv32_exec(bytes: &Vec<u8>) -> (h: u32)
    ensures
        h == fnv32(bytes@),
{
    let mut state: u64 = 0xcbf2_9ce4_8422_2325;
    let mut i: usize = 0;
    while i < bytes.len()
        invariant
            i <= bytes@.len(),
            state == fnv_fold(fnv_offset(), bytes@.subrange(0, i as int)),
        decreases bytes@.len() - i,
    {
        proof {
            assert(bytes@.subrange(0, i + 1) =~= bytes@.subrange(0, i as int).push(bytes@[i as int]));
            lemma_fnv_fold_push(fnv_offset(), bytes@.subrange(0, i as int), bytes@[i as int]);
        }
        state = (state ^ (bytes[i] as u64)).wrapping_mul(0x0100_0000_01b3);
        i = i + 1;
    }
    proof {
        assert(bytes@.subrange(0, bytes@.len() as int) =~= bytes@);
    }
    (state ^ (state >> 32u64)) as u32
}

} // verus!
