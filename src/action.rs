use vstd::prelude::*;

use crate::error::Error;
use crate::key::{key_mods_of, normalized_key, VirtualKey};
use crate::key_mods::KeyMods;

verus! {

/// A key may not be one of its own required modifiers.
pub open spec fn key_overlaps_mods(key: VirtualKey, mods: KeyMods) -> bool {
    match key_mods_of(key) {
        Some(b) => mods@ & b == b,
        None => false,
    }
}

/// A discrete binding: a key pressed or released while some modifiers are
/// held.
#[derive(Clone, Copy, Debug, PartialEq, Eq, Hash, Structural)]
pub struct Action {
    key: VirtualKey,
    mods: KeyMods,
}

impl Action {
    pub closed spec fn spec_key(self) -> VirtualKey {
        self.key
    }

    pub closed spec fn spec_mods(self) -> KeyMods {
        self.mods
    }

    /// The action with these fields, whether or not they are valid.
    pub closed spec fn spec_new(key: VirtualKey, mods: KeyMods) -> Action {
        Action { key, mods }
    }

    #[verifier::type_invariant]
    pub open spec fn valid(self) -> bool {
        !key_overlaps_mods(self.spec_key(), self.spec_mods())
    }

    /// An action is its key and its modifiers.
    pub proof fn lemma_fields(key: VirtualKey, mods: KeyMods, a: Action, b: Action)
        ensures
            Action::spec_new(key, mods).spec_key() == key,
            Action::spec_new(key, mods).spec_mods() == mods,
            (a == b) == (a.spec_key() == b.spec_key() && a.spec_mods() == b.spec_mods()),
    {
    }

    /// Fails with `KeyAndModifierMatch` where `key` is a modifier that `mods`
    /// already holds.
    pub fn new(key: VirtualKey, mods: KeyMods) -> (r: Result<Action, Error>)
        ensures
            key_overlaps_mods(key, mods) ==> r == Err::<Action, Error>(
                Error::KeyAndModifierMatch(key),
            ),
            !key_overlaps_mods(key, mods) ==> r == Ok::<Action, Error>(Action::spec_new(key, mods)),
    {
        let overlaps = match key.as_key_mods() {
            Some(key_mod) => mods.contains(key_mod),
            None => false,
        };
        if overlaps {
            return Err(Error::KeyAndModifierMatch(key));
        }
        Ok(Action { key, mods })
    }

    /// This action with a key of the same modifier family in place of its
    /// own.
    pub(crate) fn with_key(&self, key: VirtualKey) -> (r: Action)
        requires
            key_mods_of(key) == key_mods_of(self.spec_key()),
        ensures
            r == Action::spec_new(key, self.spec_mods()),
    {
        proof {
            use_type_invariant(self);
        }
        Action { key, mods: self.mods }
    }

    /// Replaces `OsCtrl` by the platform's primary modifier.
    pub fn normalized(&self) -> (r: Action)
        ensures
            r == Action::spec_new(normalized_key(self.spec_key()), self.spec_mods()),
    {
        proof {
            use_type_invariant(self);
        }
        Action { key: self.key.normalized(), ..*self }
    }

    pub fn key(&self) -> (r: VirtualKey)
        ensures
            r == self.spec_key(),
    {
        self.key
    }

    pub fn mods(&self) -> (r: KeyMods)
        ensures
            r == self.spec_mods(),
    {
        self.mods
    }
}

} // verus!
