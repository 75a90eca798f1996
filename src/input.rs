use vstd::prelude::*;

use crate::action::Action;
use crate::axis::{normalized_axis_id, Axis, AxisId, UNIT_SCALE, ZERO_VALUE};
use crate::key::{key_mods_of, normalized_key, split_of};

verus! {

/// A binding of either kind: the unit of lookup when events are dispatched.
#[derive(Clone, Copy, Debug)]
pub enum Input {
    Axis(Axis),
    Action(Action),
}

/// An input with `OsCtrl` replaced by the platform's primary modifier.
pub open spec fn normalized_input(input: Input) -> Input {
    match input {
        Input::Axis(a) => Input::Axis(
            Axis::spec_new(normalized_axis_id(a.spec_axis_id()), a.spec_scale(), a.spec_mods()),
        ),
        Input::Action(a) => Input::Action(
            Action::spec_new(normalized_key(a.spec_key()), a.spec_mods()),
        ),
    }
}

/// The two inputs that an input on `Ctrl`, `Shift` or `Alt` stands for: the
/// same input on the left and on the right key.
pub open spec fn split_input(input: Input) -> Option<(Input, Input)> {
    match input {
        Input::Axis(a) => match a.spec_axis_id() {
            AxisId::Key(key) => match split_of(key) {
                Some((l, r)) => Some(
                    (
                        Input::Axis(Axis::spec_new(AxisId::Key(l), a.spec_scale(), a.spec_mods())),
                        Input::Axis(Axis::spec_new(AxisId::Key(r), a.spec_scale(), a.spec_mods())),
                    ),
                ),
                None => None,
            },
            _ => None,
        },
        Input::Action(a) => match split_of(a.spec_key()) {
            Some((l, r)) => Some(
                (
                    Input::Action(Action::spec_new(l, a.spec_mods())),
                    Input::Action(Action::spec_new(r, a.spec_mods())),
                ),
            ),
            None => None,
        },
    }
}

impl Input {
    /// What identifies an input: an axis without its scale.
    pub open spec fn identity(self) -> Input {
        match self {
            Input::Axis(a) => Input::Axis(a.identity()),
            Input::Action(a) => Input::Action(a),
        }
    }

    /// Replaces `OsCtrl` by the platform's primary modifier.
    pub fn normalized(&self) -> (r: Input)
        ensures
            r == normalized_input(*self),
    {
        match self {
            Input::Axis(axis) => Input::Axis(axis.normalized()),
            Input::Action(action) => Input::Action(action.normalized()),
        }
    }

    /// Splits an input on `Ctrl`, `Shift` or `Alt` into the same input on the
    /// left and on the right key; `None` for an input on any other source.
    pub fn split_general_mod(&self) -> (r: Option<(Input, Input)>)
        ensures
            r == split_input(*self),
    {
        match self {
            Input::Axis(axis) => match axis.axis_id() {
                AxisId::Key(key) => match key.split_general_mod() {
                    Some((left, right)) => Some(
                        (
                            Input::Axis(Axis::new(AxisId::Key(left), axis.scale(), axis.mods())),
                            Input::Axis(Axis::new(AxisId::Key(right), axis.scale(), axis.mods())),
                        ),
                    ),
                    None => None,
                },
                _ => None,
            },
            Input::Action(action) => match action.key().split_general_mod() {
                Some((left, right)) => {
                    assert(key_mods_of(left) == key_mods_of(action.spec_key()));
                    assert(key_mods_of(right) == key_mods_of(action.spec_key()));
                    Some((Input::Action(action.with_key(left)), Input::Action(action.with_key(right))))
                },
                None => None,
            },
        }
    }
}

impl From<Axis> for Input {
    fn from(axis: Axis) -> (r: Input) {
        Input::Axis(axis)
    }
}

impl vstd::std_specs::convert::FromSpecImpl<Axis> for Input {
    open spec fn obeys_from_spec() -> bool {
        true
    }

    open spec fn from_spec(axis: Axis) -> Input {
        Input::Axis(axis)
    }
}

impl From<Action> for Input {
    fn from(action: Action) -> (r: Input) {
        Input::Action(action)
    }
}

impl vstd::std_specs::convert::FromSpecImpl<Action> for Input {
    open spec fn obeys_from_spec() -> bool {
        true
    }

    open spec fn from_spec(action: Action) -> Input {
        Input::Action(action)
    }
}

impl PartialEq for Input {
    fn eq(&self, other: &Input) -> (r: bool) {
        match (self, other) {
            (Input::Axis(a), Input::Axis(b)) => a == b,
            (Input::Action(a), Input::Action(b)) => a == b,
            _ => false,
        }
    }
}

impl vstd::std_specs::cmp::PartialEqSpecImpl for Input {
    open spec fn obeys_eq_spec() -> bool {
        true
    }

    open spec fn eq_spec(&self, other: &Input) -> bool {
        self.identity() == other.identity()
    }
}

impl Eq for Input {

}

/// How a dispatched input is to be read: as an axis with the bound scale, or
/// as an action.
#[derive(Clone, Copy, Debug, PartialEq, Eq, Structural)]
pub enum InputKind {
    /// The bit pattern of the `f32` scale of the bound axis.
    Axis(u32),
    Action,
}

impl InputKind {
    /// What an axis callback is called with for an input of this kind: the
    /// event's value and the bound scale, as `f32` bit patterns, whose product
    /// is the callback's argument. `None` for an action: an axis callback on
    /// an id bound to actions is skipped.
    pub fn axis_call(&self, event: InputEvent) -> (r: Option<(u32, u32)>)
        ensures
            r == (match *self {
                InputKind::Axis(scale) => Some((axis_value_of(event), scale)),
                InputKind::Action => None,
            }),
    {
        match self {
            InputKind::Axis(scale) => Some((event.axis_value(), *scale)),
            InputKind::Action => None,
        }
    }

    /// Whether an action callback is called for an input of this kind: an
    /// action callback on an id bound to axes is skipped.
    pub fn action_call(&self) -> (r: bool)
        ensures
            r == (*self == InputKind::Action),
    {
        match self {
            InputKind::Action => true,
            InputKind::Axis(_) => false,
        }
    }
}

/// One raw event.
#[derive(Clone, Copy, Debug, PartialEq, Eq, Structural)]
pub enum InputEvent {
    Pressed,
    Released,
    /// The bit pattern of an `f32` value that a continuous source reported.
    Axis(u32),
}

pub open spec fn axis_value_of(event: InputEvent) -> u32 {
    match event {
        InputEvent::Axis(value) => value,
        InputEvent::Pressed => UNIT_SCALE,
        InputEvent::Released => ZERO_VALUE,
    }
}

impl InputEvent {
    /// The event as an `f32` bit pattern: 1.0 for a press, 0.0 for a release,
    /// the reported value for an axis.
    pub fn axis_value(&self) -> (r: u32)
        ensures
            r == axis_value_of(*self),
    {
        match self {
            InputEvent::Axis(value) => *value,
            InputEvent::Pressed => UNIT_SCALE,
            InputEvent::Released => ZERO_VALUE,
        }
    }
}

/// The bindings that one logical id declares: all axes or all actions.
#[derive(Clone, Debug)]
pub enum InputVariants {
    Axis(Vec<Axis>),
    Action(Vec<Action>),
}

impl InputVariants {
    /// The declared bindings as inputs, in their order.
    pub open spec fn spec_inputs(self) -> Seq<Input> {
        match self {
            InputVariants::Axis(axes) => axes@.map_values(|a: Axis| Input::Axis(a)),
            InputVariants::Action(actions) => actions@.map_values(|a: Action| Input::Action(a)),
        }
    }

    /// The declared bindings as inputs, in their order.
    pub fn to_inputs(&self) -> (r: Vec<Input>)
        ensures
            r@ == self.spec_inputs(),
    {
        let mut inputs: Vec<Input> = Vec::new();
        match self {
            InputVariants::Axis(axes) => {
                let mut i: usize = 0;
                while i < axes.len()
                    invariant
                        0 <= i <= axes@.len(),
                        inputs@ == axes@.take(i as int).map_values(|a: Axis| Input::Axis(a)),
                    decreases axes.len() - i,
                {
                    inputs.push(Input::Axis(axes[i]));
                    i = i + 1;
                    assert(axes@.take(i as int).map_values(|a: Axis| Input::Axis(a))
                        =~= inputs@);
                }
                assert(axes@.take(axes.len() as int) =~= axes@);
            },
            InputVariants::Action(actions) => {
                let mut i: usize = 0;
                while i < actions.len()
                    invariant
                        0 <= i <= actions@.len(),
                        inputs@ == actions@.take(i as int).map_values(|a: Action| Input::Action(a)),
                    decreases actions.len() - i,
                {
                    inputs.push(Input::Action(actions[i]));
                    i = i + 1;
                    assert(actions@.take(i as int).map_values(|a: Action| Input::Action(a))
                        =~= inputs@);
                }
                assert(actions@.take(actions.len() as int) =~= actions@);
            },
        }
        inputs
    }
}

/// A logical input identifier of an application: a small value, compared
/// for equality, that is copied into the dispatch table for each input bound
/// to it.
pub trait InputId: Copy + PartialEq {

}

impl<T: Copy + PartialEq> InputId for T {

}

/// No two entries share an id.
pub open spec fn distinct_ids<Id>(entries: Seq<(Id, InputVariants)>) -> bool {
    forall|i: int, j: int|
        0 <= i < j < entries.len() ==> #[trigger] entries[i].0 != #[trigger] entries[j].0
}

/// The declared bindings of an application: for each logical id, its axes or
/// its actions. Each id has one entry.
#[derive(Debug)]
pub struct InputMap<Id> {
    input_map: Vec<(Id, InputVariants)>,
}

impl<Id> InputMap<Id> {
    pub closed spec fn view(&self) -> Seq<(Id, InputVariants)> {
        self.input_map@
    }

    #[verifier::type_invariant]
    pub open spec fn wf(&self) -> bool {
        distinct_ids(self@)
    }
}

impl<Id: InputId> InputMap<Id> {
    /// A map of these entries, in this order; no two may share an id.
    pub fn new(entries: Vec<(Id, InputVariants)>) -> (r: InputMap<Id>)
        requires
            distinct_ids(entries@),
        ensures
            r@ == entries@,
    {
        InputMap { input_map: entries }
    }

    /// The entries, one for each logical id.
    pub fn hash_map(&self) -> (r: &Vec<(Id, InputVariants)>)
        ensures
            r@ == self@,
            distinct_ids(r@),
    {
        proof {
            use_type_invariant(self);
        }
        &self.input_map
    }
}

} // verus!
