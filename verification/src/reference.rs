//! File references: the pair of record number and sequence number by which
//! NTFS names one generation of an MFT record.

use vstd::prelude::*;
use winstructs::ntfs::mft_reference::MftReference as PackedReference;

verus! {

/// Identifies one generation of an MFT record.
///
/// The pair `(0, 0)` stands for "no other record": a base record carries it
/// as its base reference.
#[derive(Clone, Copy, Debug, PartialEq, Eq, Structural, Hash)]
pub struct MftReference {
    pub entry: u64,
    pub sequence: u16,
}

/// The record number that the low 48 bits of a packed reference hold.
pub open spec fn packed_entry(raw: u64) -> int {
    raw as int % 0x1_0000_0000_0000
}

/// The sequence number that the high 16 bits of a packed reference hold.
pub open spec fn packed_sequence(raw: u64) -> int {
    raw as int / 0x1_0000_0000_0000
}

/// `winstructs::ntfs::mft_reference::MftReference::from(u64)`: splits the
/// eight bytes of a packed reference. The low six bytes are the record
/// number, the high two bytes the sequence number.
#[verifier::external_body]
fn unpack_reference(raw: u64) -> (r: MftReference)
    ensures
        r.entry == packed_entry(raw),
        r.sequence == packed_sequence(raw),
{
    let packed = PackedReference::from(raw);
    MftReference { entry: packed.entry, sequence: packed.sequence }
}

/// The record number of the root directory.
pub const ROOT_ENTRY: u64 = 5;

impl MftReference {
    pub fn new(entry: u64, sequence: u16) -> (r: Self)
        ensures
            r.entry == entry,
            r.sequence == sequence,
    {
        MftReference { entry, sequence }
    }

    /// Reads a reference from its packed 64-bit form.
    pub fn from_u64(raw: u64) -> (r: Self)
        ensures
            r.entry == packed_entry(raw),
            r.sequence == packed_sequence(raw),
    {
        unpack_reference(raw)
    }

    /// The number under which a collection keyed by integers files this
    /// reference. Distinct references have distinct keys.
    pub open spec fn spec_key(self) -> u128 {
        (self.entry as u128 * 0x1_0000 + self.sequence as u128) as u128
    }

    #[verifier::when_used_as_spec(spec_key)]
    pub fn key(self) -> (k: u128)
        ensures
            k == self.spec_key(),
    {
        self.entry as u128 * 0x1_0000 + self.sequence as u128
    }

    /// Whether this is the pair `(0, 0)`.
    pub open spec fn spec_is_null(self) -> bool {
        self.entry == 0 && self.sequence == 0
    }

    #[verifier::when_used_as_spec(spec_is_null)]
    pub fn is_null(self) -> (b: bool)
        ensures
            b == self.spec_is_null(),
    {
        self.entry == 0 && self.sequence == 0
    }
}

/// The reference that is filed under a key.
pub open spec fn reference_of_key(key: u128) -> MftReference {
    MftReference { entry: (key / 0x1_0000) as u64, sequence: (key % 0x1_0000) as u16 }
}

/// The key of a reference leads back to the reference.
pub proof fn lemma_key_round_trip(r: MftReference)
    ensures
        reference_of_key(r.spec_key()) == r,
{
}

/// Two references with the same key are the same reference.
pub proof fn lemma_key_injective(a: MftReference, b: MftReference)
    requires
        a.spec_key() == b.spec_key(),
    ensures
        a == b,
{
}

} // verus!
