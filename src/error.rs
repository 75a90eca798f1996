use vstd::prelude::*;

use crate::key::VirtualKey;

verus! {

/// An error of this library.
#[derive(Clone, Copy, Debug, PartialEq, Eq)]
pub enum Error {
    /// An action's key is also one of its required modifiers.
    KeyAndModifierMatch(VirtualKey),
}

} // verus!
