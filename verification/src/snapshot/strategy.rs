//! The ways in which a piece of state is duplicated into a snapshot and
//! back.

use std::marker::PhantomData;
use vstd::prelude::*;

verus! {

/// A way to duplicate state of the type `Target` into a snapshot, where it
/// is kept as a `Stored`, and back. A state kind chooses its strategy when
/// it is registered; the histories work the same with any.
pub trait Strategy {
    /// What is rolled back.
    type Target;

    /// What a snapshot holds of it.
    type Stored;

    /// Whether `stored` is a duplicate that `store` may make of `target`.
    spec fn stores(target: Self::Target, stored: Self::Stored) -> bool;

    /// Whether `target` is a duplicate that `load` may make of `stored`.
    spec fn loads(stored: Self::Stored, target: Self::Target) -> bool;

    /// Duplicates `target` for a snapshot.
    fn store(target: &Self::Target) -> (stored: Self::Stored)
        ensures
            Self::stores(*target, stored),
    ;

    /// Duplicates `stored` out of a snapshot.
    fn load(stored: &Self::Stored) -> (target: Self::Target)
        ensures
            Self::loads(*stored, target),
    ;

    /// Overwrites `target` by a duplicate of `stored`.
    fn update(target: &mut Self::Target, stored: &Self::Stored)
        ensures
            Self::loads(*stored, *final(target)),
    ;
}

/// Duplicates bit by bit. The cheapest way, for state that refers to
/// nothing outside itself.
pub struct CopyStrategy<T: Copy>(PhantomData<T>);

impl<T: Copy> Strategy for CopyStrategy<T> {
    type Target = T;

    type Stored = T;

    open spec fn stores(target: T, stored: T) -> bool {
        stored == target
    }

    open spec fn loads(stored: T, target: T) -> bool {
        target == stored
    }

    fn store(target: &T) -> (stored: T) {
        *target
    }

    fn load(stored: &T) -> (target: T) {
        *stored
    }

    fn update(target: &mut T, stored: &T) {
        *target = *stored;
    }
}

/// Duplicates by `Clone`. A duplicate is what the type's own `clone` makes
/// of the state.
pub struct CloneStrategy<T: Clone>(PhantomData<T>);

impl<T: Clone> Strategy for CloneStrategy<T> {
    type Target = T;

    type Stored = T;

    open spec fn stores(target: T, stored: T) -> bool {
        cloned(target, stored)
    }

    open spec fn loads(stored: T, target: T) -> bool {
        cloned(stored, target)
    }

    fn store(target: &T) -> (stored: T) {
        target.clone()
    }

    fn load(stored: &T) -> (target: T) {
        stored.clone()
    }

    fn update(target: &mut T, stored: &T) {
        *target = stored.clone();
    }
}

/// Duplicates state that may be absent: nothing where there is none.
pub fn store_if_present<S: Strategy>(target: Option<&S::Target>) -> (stored: Option<S::Stored>)
    ensures
        target.is_some() == stored.is_some(),
        target matches Some(value) ==> S::stores(*value, stored.unwrap()),
{
    match target {
        Some(value) => Some(S::store(value)),
        None => None,
    }
}

/// Copied state comes back bit for bit: what is loaded from a stored copy
/// is the state that was stored.
pub proof fn lemma_copy_round_trip<T: Copy>(target: T, stored: T, loaded: T)
    requires
        CopyStrategy::<T>::stores(target, stored),
        CopyStrategy::<T>::loads(stored, loaded),
    ensures
        loaded == target,
{
}

} // verus!
