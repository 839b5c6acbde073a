//! Fingerprints of saved state, one part per state kind and one for all.

use std::collections::hash_map::DefaultHasher;
use std::hash::Hash;
use vstd::prelude::*;
use vstd::std_specs::hash::DefaultHasherAdditionalSpecFns;

verus! {

/// The fingerprint of one state kind at one save.
#[derive(Clone, Copy, Debug, PartialEq, Eq, Structural, Hash)]
pub struct ChecksumPart(pub u128);

/// The fingerprint of everything that was saved for one frame. Peers with
/// the same state have the same checksum.
#[derive(Clone, Copy, Debug, PartialEq, Eq, Structural, Hash)]
pub struct Checksum(pub u128);

/// All parts combined by exclusive or, which does not depend on their order.
pub open spec fn combined(parts: Seq<ChecksumPart>) -> u128
    decreases parts.len(),
{
    if parts.len() == 0 {
        0
    } else {
        combined(parts.drop_last()) ^ parts.last().0
    }
}

/// `std::hash::Hash::hash` of `value` into `hasher`. What is written depends
/// on the type's own impl of `Hash`, so nothing is claimed of the hasher
/// afterwards.
#[verifier::external_body]
fn feed<T: Hash>(value: &T, hasher: &mut DefaultHasher) {
    value.hash(hasher);
}

impl ChecksumPart {
    /// The part that stands for a 64-bit digest: the digest itself.
    pub fn from_digest(digest: u64) -> (r: ChecksumPart)
        ensures
            r.0 == digest,
    {
        ChecksumPart(digest as u128)
    }

    /// The part of a state kind whose value is `bytes`: the digest that the
    /// default hasher gives after one write of these bytes. Equal bytes give
    /// equal parts.
    pub fn from_bytes(bytes: &[u8]) -> (r: ChecksumPart)
        ensures
            r.0 == DefaultHasher::spec_finish(seq![bytes@]),
    {
        let mut hasher = DefaultHasher::new();
        std::hash::Hasher::write(&mut hasher, bytes);
        assert(hasher@ =~= seq![bytes@]);
        Self::from_digest(std::hash::Hasher::finish(&hasher))
    }

    /// The part of a state kind whose value is `value`, hashed as its type
    /// says. The part fits in 64 bits; which one it is rests with the type.
    pub fn from_value<T: Hash>(value: &T) -> (r: ChecksumPart)
        ensures
            r.0 <= u64::MAX,
    {
        let mut hasher = DefaultHasher::new();
        feed(value, &mut hasher);
        Self::from_digest(std::hash::Hasher::finish(&hasher))
    }
}

impl Checksum {
    /// The checksum of a save: all its parts combined.
    pub fn update(parts: &Vec<ChecksumPart>) -> (r: Checksum)
        ensures
            r.0 == combined(parts@),
    {
        let mut result: u128 = 0;
        let mut i: usize = 0;
        while i < parts.len()
            invariant
                i <= parts@.len(),
                result == combined(parts@.subrange(0, i as int)),
            decreases parts@.len() - i,
        {
            result = result ^ parts[i].0;
            proof {
                assert(parts@.subrange(0, i + 1).drop_last() =~= parts@.subrange(0, i as int));
            }
            i += 1;
        }
        proof {
            assert(parts@.subrange(0, i as int) =~= parts@);
        }
        Checksum(result)
    }
}

/// Replacing one part changes the combination by exactly the difference of
/// the old part and the new one.
pub proof fn lemma_combined_update(parts: Seq<ChecksumPart>, i: int, part: ChecksumPart)
    requires
        0 <= i < parts.len(),
    ensures
        combined(parts.update(i, part)) == combined(parts) ^ parts[i].0 ^ part.0,
    decreases parts.len(),
{
    let changed = parts.update(i, part);
    let a = combined(parts.drop_last());
    let x = parts[i].0;
    let y = part.0;
    if i == parts.len() - 1 {
        assert(changed.drop_last() =~= parts.drop_last());
        assert(a ^ y == (a ^ x) ^ x ^ y) by (bit_vector);
    } else {
        lemma_combined_update(parts.drop_last(), i, part);
        assert(changed.drop_last() =~= parts.drop_last().update(i, part));
        let l = parts.last().0;
        assert((a ^ x ^ y) ^ l == (a ^ l) ^ x ^ y) by (bit_vector);
    }
}

/// A change of any one part changes the checksum.
pub proof fn lemma_changed_part_changes_checksum(
    parts: Seq<ChecksumPart>,
    i: int,
    part: ChecksumPart,
)
    requires
        0 <= i < parts.len(),
        part != parts[i],
    ensures
        combined(parts.update(i, part)) != combined(parts),
{
    lemma_combined_update(parts, i, part);
    let c = combined(parts);
    let x = parts[i].0;
    let y = part.0;
    assert(x != y ==> c ^ x ^ y != c) by (bit_vector);
}

} // verus!
