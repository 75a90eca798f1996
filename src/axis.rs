use vstd::prelude::*;

use crate::action::Action;
use crate::key::{normalized_key, VirtualKey};
use crate::key_mods::KeyMods;
use vstd::std_specs::cmp::PartialEqSpec;

verus! {

/// The bit pattern of the `f32` value 1.0.
///
/// Scales and axis values are `f32` numbers, held here as their bit patterns
/// (`f32::to_bits`): this crate carries them and never computes with them.
pub const UNIT_SCALE: u32 = 0x3F80_0000;

/// The bit pattern of the `f32` value 0.0.
pub const ZERO_VALUE: u32 = 0;

/// The source of an axis.
#[derive(Clone, Copy, Debug, PartialEq, Eq, Hash, Structural)]
pub enum AxisId {
    /// A key, which moves the axis while it is held.
    Key(VirtualKey),
    MousePositionX,
    MousePositionY,
    MouseWheel,
}

pub open spec fn normalized_axis_id(id: AxisId) -> AxisId {
    match id {
        AxisId::Key(key) => AxisId::Key(normalized_key(key)),
        _ => id,
    }
}

impl AxisId {
    /// Replaces a key `OsCtrl` by the platform's primary modifier.
    pub fn normalized(&self) -> (r: AxisId)
        ensures
            r == normalized_axis_id(*self),
    {
        match self {
            AxisId::Key(key) => AxisId::Key(key.normalized()),
            _ => *self,
        }
    }
}

/// A continuous binding: a source, the factor its values are scaled by, and
/// the modifiers that must be held.
///
/// Two axes are equal when source and modifiers are; the scale is not part of
/// an axis's identity.
#[derive(Clone, Copy, Debug)]
pub struct Axis {
    axis_id: AxisId,
    scale: u32,
    mods: KeyMods,
}

impl Axis {
    pub closed spec fn spec_axis_id(self) -> AxisId {
        self.axis_id
    }

    /// The bit pattern of the `f32` scale.
    pub closed spec fn spec_scale(self) -> u32 {
        self.scale
    }

    pub closed spec fn spec_mods(self) -> KeyMods {
        self.mods
    }

    pub closed spec fn spec_new(axis_id: AxisId, scale: u32, mods: KeyMods) -> Axis {
        Axis { axis_id, scale, mods }
    }

    /// The axis with the scale left out: what identifies it.
    pub open spec fn identity(self) -> Axis {
        Axis::spec_new(self.spec_axis_id(), ZERO_VALUE, self.spec_mods())
    }

    /// An axis is its source, its scale and its modifiers.
    pub proof fn lemma_fields(axis_id: AxisId, scale: u32, mods: KeyMods, a: Axis, b: Axis)
        ensures
            Axis::spec_new(axis_id, scale, mods).spec_axis_id() == axis_id,
            Axis::spec_new(axis_id, scale, mods).spec_scale() == scale,
            Axis::spec_new(axis_id, scale, mods).spec_mods() == mods,
            (a == b) == (a.spec_axis_id() == b.spec_axis_id() && a.spec_scale() == b.spec_scale()
                && a.spec_mods() == b.spec_mods()),
            (a.identity() == b.identity()) == (a.spec_axis_id() == b.spec_axis_id()
                && a.spec_mods() == b.spec_mods()),
    {
    }

    /// `scale` is the bit pattern of an `f32`; any value is accepted.
    pub fn new(axis_id: AxisId, scale: u32, mods: KeyMods) -> (r: Axis)
        ensures
            r == Axis::spec_new(axis_id, scale, mods),
    {
        Axis { axis_id, scale, mods }
    }

    /// An axis with scale 1.0.
    pub fn with_unit_scale(axis_id: AxisId, mods: KeyMods) -> (r: Axis)
        ensures
            r == Axis::spec_new(axis_id, UNIT_SCALE, mods),
    {
        Axis::new(axis_id, UNIT_SCALE, mods)
    }

    /// Replaces a key `OsCtrl` by the platform's primary modifier.
    pub fn normalized(&self) -> (r: Axis)
        ensures
            r == Axis::spec_new(
                normalized_axis_id(self.spec_axis_id()),
                self.spec_scale(),
                self.spec_mods(),
            ),
    {
        Axis { axis_id: self.axis_id.normalized(), ..*self }
    }

    pub fn axis_id(&self) -> (r: AxisId)
        ensures
            r == self.spec_axis_id(),
    {
        self.axis_id
    }

    /// The bit pattern of the `f32` scale.
    pub fn scale(&self) -> (r: u32)
        ensures
            r == self.spec_scale(),
    {
        self.scale
    }

    pub fn mods(&self) -> (r: KeyMods)
        ensures
            r == self.spec_mods(),
    {
        self.mods
    }
}

/// The key of an action as an axis of scale 1.0, with the same modifiers.
impl From<Action> for Axis {
    fn from(action: Action) -> (r: Axis) {
        Axis::new(AxisId::Key(action.key()), UNIT_SCALE, action.mods())
    }
}

impl vstd::std_specs::convert::FromSpecImpl<Action> for Axis {
    open spec fn obeys_from_spec() -> bool {
        true
    }

    open spec fn from_spec(action: Action) -> Axis {
        Axis::spec_new(AxisId::Key(action.spec_key()), UNIT_SCALE, action.spec_mods())
    }
}

impl PartialEq for Axis {
    fn eq(&self, other: &Axis) -> (r: bool) {
        self.axis_id == other.axis_id && self.mods == other.mods
    }
}

impl vstd::std_specs::cmp::PartialEqSpecImpl for Axis {
    open spec fn obeys_eq_spec() -> bool {
        true
    }

    open spec fn eq_spec(&self, other: &Axis) -> bool {
        self.identity() == other.identity()
    }
}

impl Eq for Axis {

}

/// Axes with the same source and modifiers are equal whatever their scales.
pub proof fn lemma_eq_ignores_scale(axis_id: AxisId, s1: u32, s2: u32, mods: KeyMods)
    ensures
        Axis::spec_new(axis_id, s1, mods).eq_spec(&Axis::spec_new(axis_id, s2, mods)),
{
}

} // verus!
