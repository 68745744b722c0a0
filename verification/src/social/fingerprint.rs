//! Fingerprints of social state: 32-bit folds of a 64-bit FNV-1a hash over the
//! little-endian bytes of the tick and of subsystem checksums.

use vstd::prelude::*;
use crate::checksum::{fnv32, fnv32_exec, le_bytes, push_le};
use crate::text::{hex_padded, prefixed_hex8};

verus! {

/// Fingerprint for verifying deterministic social state.
#[derive(Clone, Copy, Debug, PartialEq, Eq, Hash, Structural)]
pub struct SocialFingerprint(pub u32);

/// The bytes hashed by `SocialFingerprint::from_components`.
pub open spec fn components_bytes(morale: u32, panic: u32, betrayal: u32, diplomacy: u32, tick: u64) -> Seq<u8> {
    le_bytes(tick as nat, 8) + le_bytes(morale as nat, 4) + le_bytes(panic as nat, 4) + le_bytes(betrayal as nat, 4)
        + le_bytes(diplomacy as nat, 4)
}

/// The bytes hashed by `SocialFingerprint::combine`: each fingerprint's four bytes in turn.
pub open spec fn combined_bytes(fps: Seq<SocialFingerprint>) -> Seq<u8>
    decreases fps.len(),
{
    if fps.len() == 0 {
        Seq::empty()
    } else {
        combined_bytes(fps.drop_last()) + le_bytes(fps.last().0 as nat, 4)
    }
}

/// The bytes hashed by a subsystem fingerprint: the tick, then the checksum.
pub open spec fn tick_checksum_bytes(checksum: u32, tick: u64) -> Seq<u8> {
    le_bytes(tick as nat, 8) + le_bytes(checksum as nat, 4)
}

fn hash_tick_checksum(checksum: u32, tick: u64) -> (h: u32)
    ensures
        h == fnv32(tick_checksum_bytes(checksum, tick)),
{
    let mut bytes: Vec<u8> = Vec::new();
    push_le(&mut bytes, tick, 8);
    push_le(&mut bytes, checksum as u64, 4);
    proof {
        assert(bytes@ =~= tick_checksum_bytes(checksum, tick));
    }
    fnv32_exec(&bytes)
}

impl SocialFingerprint {
    /// The raw fingerprint.
    pub fn raw(self) -> (r: u32)
        ensures
            r == self.0,
    {
        self.0
    }

    /// Whether two fingerprints are equal.
    pub fn matches(&self, other: &Self) -> (b: bool)
        ensures
            b == (self.0 == other.0),
    {
        self.0 == other.0
    }

    /// The fingerprint of the four subsystem checksums at a tick.
    pub fn from_components(
        morale_checksum: u32,
        panic_checksum: u32,
        betrayal_checksum: u32,
        diplomacy_checksum: u32,
        tick: u64,
    ) -> (r: Self)
        ensures
            r.0 == fnv32(components_bytes(morale_checksum, panic_checksum, betrayal_checksum, diplomacy_checksum, tick)),
    {
        let mut bytes: Vec<u8> = Vec::new();
        push_le(&mut bytes, tick, 8);
        push_le(&mut bytes, morale_checksum as u64, 4);
        push_le(&mut bytes, panic_checksum as u64, 4);
        push_le(&mut bytes, betrayal_checksum as u64, 4);
        push_le(&mut bytes, diplomacy_checksum as u64, 4);
        proof {
            assert(bytes@ =~= components_bytes(morale_checksum, panic_checksum, betrayal_checksum, diplomacy_checksum, tick));
        }
        SocialFingerprint(fnv32_exec(&bytes))
    }

    /// The fingerprint of a sequence of fingerprints.
    pub fn combine(fingerprints: &[SocialFingerprint]) -> (r: Self)
        ensures
            r.0 == fnv32(combined_bytes(fingerprints@)),
    {
        let mut bytes: Vec<u8> = Vec::new();
        let mut i: usize = 0;
        while i < fingerprints.len()
            invariant
                i <= fingerprints@.len(),
                bytes@ == combined_bytes(fingerprints@.subrange(0, i as int)),
            decreases fingerprints@.len() - i,
        {
            push_le(&mut bytes, fingerprints[i].0 as u64, 4);
            proof {
                let next = fingerprints@.subrange(0, i + 1);
                assert(next.drop_last() =~= fingerprints@.subrange(0, i as int));
                assert(next.last() == fingerprints@[i as int]);
            }
            i = i + 1;
        }
        proof {
            assert(fingerprints@.subrange(0, fingerprints@.len() as int) =~= fingerprints@);
        }
        SocialFingerprint(fnv32_exec(&bytes))
    }

    /// The text form `social:<eight hex digits>`.
    pub fn to_string(&self) -> (s: String)
        ensures
            s@ == "social:"@ + hex_padded(self.0 as nat, 8),
    {
        prefixed_hex8("social:", self.0)
    }
}

/// Fingerprint of the morale subsystem alone.
#[derive(Clone, Copy, Debug, PartialEq, Eq, Hash, Structural)]
pub struct MoraleFingerprint(pub u32);

impl MoraleFingerprint {
    /// The raw fingerprint.
    pub fn raw(self) -> (r: u32)
        ensures
            r == self.0,
    {
        self.0
    }

    /// Whether two fingerprints are equal.
    pub fn matches(&self, other: &Self) -> (b: bool)
        ensures
            b == (self.0 == other.0),
    {
        self.0 == other.0
    }

    /// The fingerprint of the subsystem's checksum at a tick.
    pub fn from_checksum(checksum: u32, tick: u64) -> (r: Self)
        ensures
            r.0 == fnv32(tick_checksum_bytes(checksum, tick)),
    {
        MoraleFingerprint(hash_tick_checksum(checksum, tick))
    }

    /// The text form `morale:<eight hex digits>`.
    pub fn to_string(&self) -> (s: String)
        ensures
            s@ == "morale:"@ + hex_padded(self.0 as nat, 8),
    {
        prefixed_hex8("morale:", self.0)
    }
}

/// Fingerprint of the betrayal subsystem alone.
#[derive(Clone, Copy, Debug, PartialEq, Eq, Hash, Structural)]
pub struct BetrayalFingerprint(pub u32);

impl BetrayalFingerprint {
    /// The raw fingerprint.
    pub fn raw(self) -> (r: u32)
        ensures
            r == self.0,
    {
        self.0
    }

    /// Whether two fingerprints are equal.
    pub fn matches(&self, other: &Self) -> (b: bool)
        ensures
            b == (self.0 == other.0),
    {
        self.0 == other.0
    }

    /// The fingerprint of the subsystem's checksum at a tick.
    pub fn from_checksum(checksum: u32, tick: u64) -> (r: Self)
        ensures
            r.0 == fnv32(tick_checksum_bytes(checksum, tick)),
    {
        BetrayalFingerprint(hash_tick_checksum(checksum, tick))
    }

    /// The text form `betrayal:<eight hex digits>`.
    pub fn to_string(&self) -> (s: String)
        ensures
            s@ == "betrayal:"@ + hex_padded(self.0 as nat, 8),
    {
        prefixed_hex8("betrayal:", self.0)
    }
}

/// Fingerprint of the panic subsystem alone.
#[derive(Clone, Copy, Debug, PartialEq, Eq, Hash, Structural)]
pub struct PanicFingerprint(pub u32);

impl PanicFingerprint {
    /// The raw fingerprint.
    pub fn raw(self) -> (r: u32)
        ensures
            r == self.0,
    {
        self.0
    }

    /// Whether two fingerprints are equal.
    pub fn matches(&self, other: &Self) -> (b: bool)
        ensures
            b == (self.0 == other.0),
    {
        self.0 == other.0
    }

    /// The fingerprint of the subsystem's checksum at a tick.
    pub fn from_checksum(checksum: u32, tick: u64) -> (r: Self)
        ensures
            r.0 == fnv32(tick_checksum_bytes(checksum, tick)),
    {
        PanicFingerprint(hash_tick_checksum(checksum, tick))
    }

    /// The text form `panic:<eight hex digits>`.
    pub fn to_string(&self) -> (s: String)
        ensures
            s@ == "panic:"@ + hex_padded(self.0 as nat, 8),
    {
        prefixed_hex8("panic:", self.0)
    }
}

/// Fingerprint of the diplomacy subsystem alone.
#[derive(Clone, Copy, Debug, PartialEq, Eq, Hash, Structural)]
pub struct DiplomacyFingerprint(pub u32);

impl DiplomacyFingerprint {
    /// The raw fingerprint.
    pub fn raw(self) -> (r: u32)
        ensures
            r == self.0,
    {
        self.0
    }

    /// Whether two fingerprints are equal.
    pub fn matches(&self, other: &Self) -> (b: bool)
        ensures
            b == (self.0 == other.0),
    {
        self.0 == other.0
    }

    /// The fingerprint of the subsystem's checksum at a tick.
    pub fn from_checksum(checksum: u32, tick: u64) -> (r: Self)
        ensures
            r.0 == fnv32(tick_checksum_bytes(checksum, tick)),
    {
        DiplomacyFingerprint(hash_tick_checksum(checksum, tick))
    }

    /// The text form `diplomacy:<eight hex digits>`.
    pub fn to_string(&self) -> (s: String)
        ensures
            s@ == "diplomacy:"@ + hex_padded(self.0 as nat, 8),
    {
        prefixed_hex8("diplomacy:", self.0)
    }
}

} // verus!
