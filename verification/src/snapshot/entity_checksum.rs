//! The checksum part of the set of rollback objects itself.

use crate::snapshot::checksum::ChecksumPart;
use std::hash::{BuildHasher, Hash, Hasher};
use vstd::prelude::*;

verus! {

/// The digest that a hasher built by `bevy::utils::FixedState` gives after
/// the two counts were hashed into it, `active` first. The hasher's seeds
/// are fixed, but its algorithm is chosen for the machine it runs on, so
/// nothing is claimed of the digest.
#[verifier::external_body]
fn hash_counts(active: usize, spawned: usize) -> (digest: u64) {
    let mut hasher = bevy::utils::FixedState.build_hasher();
    active.hash(&mut hasher);
    spawned.hash(&mut hasher);
    hasher.finish()
}

/// Keeps a checksum part for the rollback objects as a whole, so that peers
/// notice when one of them has made or destroyed an object that the others
/// have not.
pub struct EntityChecksumPlugin;

impl EntityChecksumPlugin {
    /// The part for a save at which `active` rollback objects are alive and
    /// `spawned` were made since the start. Only the two counts enter it,
    /// not the objects.
    pub fn update(active: usize, spawned: usize) -> (r: ChecksumPart)
        ensures
            r.0 <= u64::MAX,
    {
        ChecksumPart::from_digest(hash_counts(active, spawned))
    }
}

} // verus!
