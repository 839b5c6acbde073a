//! The checksum part of a resource that can be hashed.

use crate::snapshot::checksum::ChecksumPart;
use std::hash::Hash;
use std::marker::PhantomData;
use vstd::prelude::*;

verus! {

/// Keeps a checksum part for the resource `R`.
pub struct GgrsResourceChecksumHashPlugin<R: Hash> {
    _phantom: PhantomData<R>,
}

impl<R: Hash> Default for GgrsResourceChecksumHashPlugin<R> {
    fn default() -> Self {
        Self { _phantom: PhantomData }
    }
}

impl<R: Hash> GgrsResourceChecksumHashPlugin<R> {
    /// The part for a save at which the resource is `resource`. It fits in
    /// 64 bits; which one it is rests with the type's way of hashing.
    pub fn update(resource: &R) -> (r: ChecksumPart)
        ensures
            r.0 <= u64::MAX,
    {
        ChecksumPart::from_value(resource)
    }
}

} // verus!
