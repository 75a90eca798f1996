use vstd::prelude::*;

use crate::action::Action;
use crate::axis::{Axis, AxisId, UNIT_SCALE};
use crate::input::{
    axis_value_of, normalized_input, split_input, Input, InputEvent, InputId, InputKind, InputMap,
    InputVariants,
};
use crate::key::{key_mods_of, VirtualKey};
use crate::key_mods::KeyMods;
use vstd::std_specs::cmp::PartialEqSpec;

verus! {

/// A dispatch table: for each input identity, the input it was bound with
/// and the logical id it resolves to.
pub type Table<Id> = Map<Input, (Input, Id)>;

/// The table that a list of entries describes.
pub open spec fn table_of<Id>(entries: Seq<(Input, Id)>) -> Table<Id>
    decreases entries.len(),
{
    if entries.len() == 0 {
        Map::empty()
    } else {
        table_of(entries.drop_last()).insert(entries.last().0.identity(), entries.last())
    }
}

/// No two entries share an identity.
pub open spec fn distinct_identities<Id>(entries: Seq<(Input, Id)>) -> bool {
    forall|i: int, j: int|
        0 <= i < j < entries.len() ==> #[trigger] entries[i].0.identity()
            != #[trigger] entries[j].0.identity()
}

/// Binds an input to an id. Where its identity is bound already, the entry
/// keeps the input it was first bound with and takes the new id.
pub open spec fn bind<Id>(t: Table<Id>, input: Input, id: Id) -> Table<Id> {
    let k = input.identity();
    t.insert(
        k,
        (
            if t.contains_key(k) {
                t[k].0
            } else {
                input
            },
            id,
        ),
    )
}

/// Binds each of the inputs to the id, in order.
pub open spec fn bind_all<Id>(t: Table<Id>, inputs: Seq<Input>, id: Id) -> Table<Id>
    decreases inputs.len(),
{
    if inputs.len() == 0 {
        t
    } else {
        bind(bind_all(t, inputs.drop_last(), id), inputs.last(), id)
    }
}

/// What one declared input is entered in the table as: normalized, then, on
/// `Ctrl`, `Shift` or `Alt`, split into its left and right inputs.
pub open spec fn expanded(input: Input) -> Seq<Input> {
    let n = normalized_input(input);
    match split_input(n) {
        Some((l, r)) => seq![l, r],
        None => seq![n],
    }
}

/// The inputs that a list of declared inputs is entered in the table as.
pub open spec fn expand_all(inputs: Seq<Input>) -> Seq<Input>
    decreases inputs.len(),
{
    if inputs.len() == 0 {
        seq![]
    } else {
        expand_all(inputs.drop_last()) + expanded(inputs.last())
    }
}

/// The table after the entries of an input map are bound in order.
pub open spec fn bind_map<Id>(t: Table<Id>, entries: Seq<(Id, InputVariants)>) -> Table<Id>
    decreases entries.len(),
{
    if entries.len() == 0 {
        t
    } else {
        bind_all(
            bind_map(t, entries.drop_last()),
            expand_all(entries.last().1.spec_inputs()),
            entries.last().0,
        )
    }
}

/// The id that an axis is bound to, read as an axis with the scale it was
/// bound with.
pub open spec fn bound_axis<Id>(t: Table<Id>, axis: Axis) -> Option<(Id, InputKind)> {
    let k = Input::Axis(axis).identity();
    if t.contains_key(k) {
        match t[k].0 {
            Input::Axis(a) => Some((t[k].1, InputKind::Axis(a.spec_scale()))),
            Input::Action(_) => None,
        }
    } else {
        None
    }
}

/// The axis that a press of an action's key moves when no action is bound.
pub open spec fn fallback_axis(action: Action) -> Axis {
    Axis::spec_new(AxisId::Key(action.spec_key()), UNIT_SCALE, action.spec_mods())
}

/// Where an action event goes: to the id its action is bound to; failing
/// that, for a press, to the id that the key's axis is bound to, as an axis
/// with the bound scale.
pub open spec fn dispatch_action<Id>(t: Table<Id>, action: Action, event: InputEvent) -> Option<
    (Id, InputKind),
> {
    let k = Input::Action(action).identity();
    if t.contains_key(k) {
        Some((t[k].1, InputKind::Action))
    } else if event == InputEvent::Pressed {
        bound_axis(t, fallback_axis(action))
    } else {
        None
    }
}

/// Where an axis event goes: to the id its axis is bound to, with the scale
/// it was bound with.
pub open spec fn dispatch_axis<Id>(t: Table<Id>, axis: Axis) -> Option<(Id, InputKind)> {
    bound_axis(t, axis)
}

/// The held modifiers after a key goes down or up.
pub open spec fn held_after(held: u32, key: VirtualKey, pressed: bool) -> u32 {
    match key_mods_of(key) {
        Some(b) => if pressed {
            held | b
        } else {
            held & !b
        },
        None => held,
    }
}

/// The modifiers that an event of a key is read with: those held, less the
/// key's own.
pub open spec fn mods_for_key(held: u32, key: VirtualKey) -> u32 {
    match key_mods_of(key) {
        Some(b) => held & !b,
        None => held,
    }
}

pub open spec fn event_of(pressed: bool) -> InputEvent {
    if pressed {
        InputEvent::Pressed
    } else {
        InputEvent::Released
    }
}

/// The collision that binding an input meets, where its identity is bound to
/// another id: the input, the id it is bound to, and the new id.
pub open spec fn collision<Id: PartialEq>(t: Table<Id>, input: Input, id: Id) -> Seq<
    (Input, Id, Id),
> {
    let k = input.identity();
    if t.contains_key(k) && !t[k].1.eq_spec(&id) {
        seq![(input, t[k].1, id)]
    } else {
        seq![]
    }
}

/// The collisions met when the inputs are bound to the id, in order.
pub open spec fn collisions_all<Id: PartialEq>(t: Table<Id>, inputs: Seq<Input>, id: Id) -> Seq<
    (Input, Id, Id),
>
    decreases inputs.len(),
{
    if inputs.len() == 0 {
        seq![]
    } else {
        collisions_all(t, inputs.drop_last(), id) + collision(
            bind_all(t, inputs.drop_last(), id),
            inputs.last(),
            id,
        )
    }
}

/// The collisions met when the entries of an input map are bound, in order.
pub open spec fn collisions_map<Id: PartialEq>(t: Table<Id>, entries: Seq<(Id, InputVariants)>) -> Seq<
    (Input, Id, Id),
>
    decreases entries.len(),
{
    if entries.len() == 0 {
        seq![]
    } else {
        collisions_map(t, entries.drop_last()) + collisions_all(
            bind_map(t, entries.drop_last()),
            expand_all(entries.last().1.spec_inputs()),
            entries.last().0,
        )
    }
}

proof fn lemma_collisions_all_concat<Id: PartialEq>(t: Table<Id>, a: Seq<Input>, b: Seq<Input>, id: Id)
    ensures
        collisions_all(t, a + b, id) == collisions_all(t, a, id) + collisions_all(
            bind_all(t, a, id),
            b,
            id,
        ),
    decreases b.len(),
{
    if b.len() == 0 {
        assert(a + b =~= a);
        assert(collisions_all(t, a + b, id) =~= collisions_all(t, a, id) + collisions_all(
            bind_all(t, a, id),
            b,
            id,
        ));
    } else {
        let b0 = b.drop_last();
        assert((a + b).drop_last() =~= a + b0);
        assert((a + b).last() == b.last());
        lemma_collisions_all_concat(t, a, b0, id);
        lemma_bind_all_concat(t, a, b0, id);
        assert(collisions_all(t, a + b, id) =~= collisions_all(t, a, id) + collisions_all(
            bind_all(t, a, id),
            b,
            id,
        ));
    }
}

proof fn lemma_table_dom<Id>(entries: Seq<(Input, Id)>, k: Input)
    ensures
        table_of(entries).contains_key(k) == (exists|i: int|
            0 <= i < entries.len() && #[trigger] entries[i].0.identity() == k),
    decreases entries.len(),
{
    if entries.len() > 0 {
        let p = entries.drop_last();
        lemma_table_dom(p, k);
        if exists|i: int| 0 <= i < entries.len() && #[trigger] entries[i].0.identity() == k {
            let i = choose|i: int| 0 <= i < entries.len() && #[trigger] entries[i].0.identity() == k;
            if i < entries.len() - 1 {
                assert(p[i] == entries[i]);
            }
        }
        if exists|i: int| 0 <= i < p.len() && #[trigger] p[i].0.identity() == k {
            let i = choose|i: int| 0 <= i < p.len() && #[trigger] p[i].0.identity() == k;
            assert(p[i] == entries[i]);
        }
    }
}

proof fn lemma_table_at<Id>(entries: Seq<(Input, Id)>, i: int)
    requires
        distinct_identities(entries),
        0 <= i < entries.len(),
    ensures
        table_of(entries).contains_key(entries[i].0.identity()),
        table_of(entries)[entries[i].0.identity()] == entries[i],
    decreases entries.len(),
{
    let p = entries.drop_last();
    if i < entries.len() - 1 {
        assert(p[i] == entries[i]);
        assert(distinct_identities(p)) by {
            assert forall|a: int, b: int| 0 <= a < b < p.len() implies #[trigger] p[a].0.identity()
                != #[trigger] p[b].0.identity() by {
                assert(p[a] == entries[a] && p[b] == entries[b]);
            }
        }
        lemma_table_at(p, i);
        assert(entries[i].0.identity() != entries[entries.len() - 1].0.identity());
    }
}

proof fn lemma_table_update<Id>(entries: Seq<(Input, Id)>, i: int, e: (Input, Id))
    requires
        distinct_identities(entries),
        0 <= i < entries.len(),
        e.0.identity() == entries[i].0.identity(),
    ensures
        distinct_identities(entries.update(i, e)),
        table_of(entries.update(i, e)) == table_of(entries).insert(e.0.identity(), e),
    decreases entries.len(),
{
    let u = entries.update(i, e);
    assert(distinct_identities(u)) by {
        assert forall|a: int, b: int| 0 <= a < b < u.len() implies #[trigger] u[a].0.identity()
            != #[trigger] u[b].0.identity() by {
            assert(entries[a].0.identity() != entries[b].0.identity());
        }
    }
    let p = entries.drop_last();
    let n = entries.len() - 1;
    assert(distinct_identities(p)) by {
        assert forall|a: int, b: int| 0 <= a < b < p.len() implies #[trigger] p[a].0.identity()
            != #[trigger] p[b].0.identity() by {
            assert(p[a] == entries[a] && p[b] == entries[b]);
        }
    }
    if i == n {
        assert(u.drop_last() =~= p);
        assert(table_of(u) =~= table_of(entries).insert(e.0.identity(), e));
    } else {
        assert(u.drop_last() =~= p.update(i, e));
        lemma_table_update(p, i, e);
        assert(entries[i].0.identity() != entries[n].0.identity());
        assert(table_of(u) =~= table_of(entries).insert(e.0.identity(), e));
    }
}

proof fn lemma_bind_all_concat<Id>(t: Table<Id>, a: Seq<Input>, b: Seq<Input>, id: Id)
    ensures
        bind_all(t, a + b, id) == bind_all(bind_all(t, a, id), b, id),
    decreases b.len(),
{
    if b.len() == 0 {
        assert(a + b =~= a);
    } else {
        assert((a + b).drop_last() =~= a + b.drop_last());
        assert((a + b).last() == b.last());
        lemma_bind_all_concat(t, a, b.drop_last(), id);
    }
}

proof fn lemma_bind_all_short<Id: PartialEq>(t: Table<Id>, a: Input, b: Input, id: Id)
    ensures
        bind_all(t, seq![a], id) == bind(t, a, id),
        bind_all(t, seq![a, b], id) == bind(bind(t, a, id), b, id),
        collisions_all(t, seq![a], id) == collision(t, a, id),
        collisions_all(t, seq![a, b], id) == collision(t, a, id) + collision(bind(t, a, id), b, id),
{
    assert(seq![a, b].drop_last() =~= seq![a]);
    assert(seq![a, b].last() == b);
    assert(seq![a].drop_last() =~= Seq::<Input>::empty());
    assert(seq![a].last() == a);
    assert(bind_all(t, Seq::<Input>::empty(), id) == t);
    assert(bind_all(t, seq![a], id) == bind(t, a, id));
    assert(collisions_all(t, Seq::<Input>::empty(), id) == Seq::<(Input, Id, Id)>::empty());
    assert(collisions_all(t, seq![a], id) =~= collision(t, a, id));
}

/// The dispatch table built from an input map, and the modifiers held now.
pub struct InputHandler<Id> {
    inputs: Vec<(Input, Id)>,
    mods: KeyMods,
}

impl<Id: InputId> InputHandler<Id> {
    /// The table: for each input identity, the bound input and its id.
    pub closed spec fn view(&self) -> Table<Id> {
        table_of(self.inputs@)
    }

    /// The modifiers held now.
    pub closed spec fn spec_held(&self) -> KeyMods {
        self.mods
    }

    pub closed spec fn wf(&self) -> bool {
        distinct_identities(self.inputs@)
    }

    /// An empty table, with no modifier held.
    pub fn new() -> (r: InputHandler<Id>)
        ensures
            r.wf(),
            r@ == Table::<Id>::empty(),
            r.spec_held()@ == 0,
    {
        let r = InputHandler { inputs: Vec::new(), mods: KeyMods::empty() };
        assert(r.inputs@ =~= Seq::<(Input, Id)>::empty());
        r
    }

    /// The table's entries, one for each bound identity.
    pub fn entries(&self) -> (r: &[(Input, Id)])
        requires
            self.wf(),
        ensures
            table_of(r@) == self@,
            distinct_identities(r@),
    {
        self.inputs.as_slice()
    }

    /// The modifiers held now.
    pub fn held_mods(&self) -> (r: KeyMods)
        ensures
            r == self.spec_held(),
    {
        self.mods
    }

    fn find(&self, input: &Input) -> (r: Option<usize>)
        requires
            self.wf(),
        ensures
            r matches Some(i) ==> i < self.inputs@.len() && self.inputs@[i as int].0.identity()
                == input.identity(),
            r is None ==> forall|i: int|
                0 <= i < self.inputs@.len() ==> #[trigger] self.inputs@[i].0.identity()
                    != input.identity(),
    {
        let mut i: usize = 0;
        while i < self.inputs.len()
            invariant
                0 <= i <= self.inputs@.len(),
                forall|j: int|
                    0 <= j < i ==> #[trigger] self.inputs@[j].0.identity() != input.identity(),
            decreases self.inputs.len() - i,
        {
            if self.inputs[i].0 == *input {
                return Some(i);
            }
            i = i + 1;
        }
        None
    }

    /// The entry that an input's identity is bound in, if any.
    pub fn lookup(&self, input: &Input) -> (r: Option<(Input, Id)>)
        requires
            self.wf(),
        ensures
            r == (if self@.contains_key(input.identity()) {
                Some(self@[input.identity()])
            } else {
                None::<(Input, Id)>
            }),
    {
        proof {
            lemma_table_dom(self.inputs@, input.identity());
        }
        match self.find(input) {
            Some(i) => {
                proof {
                    lemma_table_at(self.inputs@, i as int);
                }
                Some(self.inputs[i])
            },
            None => None,
        }
    }

    /// Binds an input to an id. A binding that takes the place of another
    /// keeps the input first bound and takes the new id.
    ///
    /// Returns the id that the input's identity was bound to before, where
    /// that is another id: the collision, if any.
    pub fn insert_input(&mut self, input: Input, id: Id) -> (r: Option<Id>)
        requires
            old(self).wf(),
            Id::obeys_eq_spec(),
        ensures
            final(self).wf(),
            final(self)@ == bind(old(self)@, input, id),
            final(self).spec_held() == old(self).spec_held(),
            r == (if old(self)@.contains_key(input.identity()) && !old(
                self,
            )@[input.identity()].1.eq_spec(&id) {
                Some(old(self)@[input.identity()].1)
            } else {
                None::<Id>
            }),
    {
        proof {
            lemma_table_dom(self.inputs@, input.identity());
        }
        match self.find(&input) {
            Some(i) => {
                let bound = self.inputs[i].0;
                let old_id = self.inputs[i].1;
                proof {
                    lemma_table_at(self.inputs@, i as int);
                    lemma_table_update(self.inputs@, i as int, (bound, id));
                }
                self.inputs.set(i, (bound, id));
                if old_id == id {
                    None
                } else {
                    Some(old_id)
                }
            },
            None => {
                let ghost before = self.inputs@;
                self.inputs.push((input, id));
                proof {
                    assert(self.inputs@.drop_last() =~= before);
                    assert forall|a: int, b: int|
                        0 <= a < b < self.inputs@.len() implies #[trigger] self.inputs@[a].0.identity()
                        != #[trigger] self.inputs@[b].0.identity() by {
                        assert(self.inputs@[a] == before[a] || a == before.len());
                    }
                }
                None
            },
        }
    }

    /// Binds the inputs of an input map, entry by entry and in the order of
    /// the entries' declarations. Each input is normalized; an input on
    /// `Ctrl`, `Shift` or `Alt` is bound on the left and on the right key.
    ///
    /// Returns the collisions met on the way, in order: each input whose
    /// identity was bound already to another id, with that id and the id it
    /// is bound to now.
    pub fn update_inputs(&mut self, input_map: &InputMap<Id>) -> (r: Vec<(Input, Id, Id)>)
        requires
            old(self).wf(),
            Id::obeys_eq_spec(),
        ensures
            final(self).wf(),
            final(self)@ == bind_map(old(self)@, input_map@),
            r@ == collisions_map(old(self)@, input_map@),
            final(self).spec_held() == old(self).spec_held(),
    {
        let entries = input_map.hash_map();
        let ghost t0 = self@;
        let mut collisions: Vec<(Input, Id, Id)> = Vec::new();
        let mut i: usize = 0;
        while i < entries.len()
            invariant
                0 <= i <= entries@.len(),
                entries@ == input_map@,
                Id::obeys_eq_spec(),
                self.wf(),
                self@ == bind_map(t0, entries@.take(i as int)),
                collisions@ == collisions_map(t0, entries@.take(i as int)),
                self.spec_held() == old(self).spec_held(),
            decreases entries.len() - i,
        {
            let id = entries[i].0;
            let inputs = entries[i].1.to_inputs();
            let ghost before = self@;
            let ghost met = collisions@;
            let mut j: usize = 0;
            while j < inputs.len()
                invariant
                    0 <= j <= inputs@.len(),
                    Id::obeys_eq_spec(),
                    self.wf(),
                    self@ == bind_all(before, expand_all(inputs@.take(j as int)), id),
                    collisions@ == met + collisions_all(before, expand_all(inputs@.take(j as int)), id),
                    self.spec_held() == old(self).spec_held(),
                decreases inputs.len() - j,
            {
                let ghost mid = self@;
                let ghost mid_met = collisions@;
                let ghost done = expand_all(inputs@.take(j as int));
                assert(inputs@.take(j + 1).drop_last() =~= inputs@.take(j as int));
                assert(expand_all(inputs@.take(j + 1)) == done + expanded(inputs@[j as int]));
                proof {
                    lemma_bind_all_concat(before, done, expanded(inputs@[j as int]), id);
                    lemma_collisions_all_concat(before, done, expanded(inputs@[j as int]), id);
                }
                let input = inputs[j].normalized();
                match input.split_general_mod() {
                    Some((left, right)) => {
                        proof {
                            lemma_bind_all_short(mid, left, right, id);
                        }
                        if let Some(old_id) = self.insert_input(left, id) {
                            collisions.push((left, old_id, id));
                        }
                        if let Some(old_id) = self.insert_input(right, id) {
                            collisions.push((right, old_id, id));
                        }
                    },
                    None => {
                        proof {
                            lemma_bind_all_short(mid, input, input, id);
                        }
                        if let Some(old_id) = self.insert_input(input, id) {
                            collisions.push((input, old_id, id));
                        }
                    },
                }
                assert(collisions@ =~= mid_met + collisions_all(mid, expanded(inputs@[j as int]), id));
                assert(collisions@ =~= met + collisions_all(before, expand_all(inputs@.take(j + 1)), id));
                j = j + 1;
            }
            assert(inputs@.take(inputs.len() as int) =~= inputs@);
            assert(entries@.take(i + 1).drop_last() =~= entries@.take(i as int));
            assert(entries@.take(i + 1).last() == entries@[i as int]);
            i = i + 1;
        }
        assert(entries@.take(entries.len() as int) =~= entries@);
        collisions
    }

    /// Where an action event goes: the id its action is bound to, read as an
    /// action; failing that, for a press only, the id that the key's axis of
    /// scale 1.0 is bound to, read as an axis with the bound scale.
    pub fn run_action_handler(&self, action: Action, event: InputEvent) -> (r: Option<
        (Id, InputKind),
    >)
        requires
            self.wf(),
        ensures
            r == dispatch_action(self@, action, event),
    {
        match self.lookup(&Input::Action(action)) {
            Some((_, id)) => Some((id, InputKind::Action)),
            None => match event {
                InputEvent::Pressed => {
                    let axis = Axis::from(action);
                    match self.lookup(&Input::Axis(axis)) {
                        Some((Input::Axis(bound), id)) => Some((id, InputKind::Axis(bound.scale()))),
                        _ => None,
                    }
                },
                _ => None,
            },
        }
    }

    /// Where an axis event goes: the id its axis is bound to, read as an axis
    /// with the scale it was bound with, not the scale of `axis`.
    pub fn run_axis_handler(&self, axis: Axis) -> (r: Option<(Id, InputKind)>)
        requires
            self.wf(),
        ensures
            r == dispatch_axis(self@, axis),
    {
        match self.lookup(&Input::Axis(axis)) {
            Some((Input::Axis(bound), id)) => Some((id, InputKind::Axis(bound.scale()))),
            _ => None,
        }
    }

    /// A key or mouse button went down or up: updates the held modifiers and
    /// says where the event goes. The event is read with the modifiers held
    /// before it, less the key's own.
    pub fn run_key_event(&mut self, key: VirtualKey, pressed: bool) -> (r: Option<
        (Id, InputKind),
    >)
        requires
            old(self).wf(),
        ensures
            final(self).wf(),
            final(self)@ == old(self)@,
            final(self).spec_held()@ == held_after(old(self).spec_held()@, key, pressed),
            r == dispatch_action(
                old(self)@,
                Action::spec_new(key, KeyMods::spec_from_bits(mods_for_key(old(self).spec_held()@, key))),
                event_of(pressed),
            ),
    {
        let held = self.mods;
        let mods = match key.as_key_mods() {
            Some(key_mod) => {
                self.mods.set(key_mod, pressed);
                held.difference(key_mod)
            },
            None => held,
        };
        proof {
            let bits = mods_for_key(held@, key);
            KeyMods::lemma_view_eq(mods, KeyMods::spec_from_bits(bits), bits);
            if let Some(b) = key_mods_of(key) {
                let h = held@;
                assert(b != 0);
                assert(b != 0 ==> (h & !b) & b != b) by (bit_vector);
            }
        }
        let event = if pressed {
            InputEvent::Pressed
        } else {
            InputEvent::Released
        };
        match Action::new(key, mods) {
            Ok(action) => self.run_action_handler(action, event),
            Err(_) => None,
        }
    }
}

impl<Id: InputId> Default for InputHandler<Id> {
    /// An empty table, with no modifier held.
    fn default() -> (r: InputHandler<Id>)
        ensures
            r.wf(),
            r@ == Table::<Id>::empty(),
            r.spec_held()@ == 0,
    {
        InputHandler::new()
    }
}

/// An input that does not split is entered in the table once, normalized: an
/// entry that declares only it binds exactly one identity, which from an empty
/// table is the only entry.
pub proof fn lemma_unsplit_binds_once<Id: PartialEq>(t: Table<Id>, id: Id, v: InputVariants, input: Input)
    requires
        v.spec_inputs() == seq![input],
        split_input(normalized_input(input)) is None,
    ensures
        bind_map(t, seq![(id, v)]) == bind(t, normalized_input(input), id),
        bind_map(Table::<Id>::empty(), seq![(id, v)]) == Table::<Id>::empty().insert(
            normalized_input(input).identity(),
            (normalized_input(input), id),
        ),
{
    lemma_bind_single(t, id, v, input);
    lemma_bind_single(Table::<Id>::empty(), id, v, input);
    let n = normalized_input(input);
    assert(expanded(input) == seq![n]);
    lemma_bind_all_short(t, n, n, id);
    lemma_bind_all_short(Table::<Id>::empty(), n, n, id);
    assert(bind(Table::<Id>::empty(), n, id) =~= Table::<Id>::empty().insert(n.identity(), (n, id)));
}

proof fn lemma_bind_single<Id>(t: Table<Id>, id: Id, v: InputVariants, input: Input)
    requires
        v.spec_inputs() == seq![input],
    ensures
        bind_map(t, seq![(id, v)]) == bind_all(t, expanded(input), id),
{
    let entries = seq![(id, v)];
    assert(entries.drop_last() =~= Seq::<(Id, InputVariants)>::empty());
    assert(entries.last() == (id, v));
    assert(bind_map(t, entries.drop_last()) == t);
    let inputs = seq![input];
    assert(inputs.drop_last() =~= Seq::<Input>::empty());
    assert(inputs.last() == input);
    assert(expand_all(inputs.drop_last()) == Seq::<Input>::empty());
    assert(expand_all(inputs) =~= expanded(input));
}

/// An input on `Ctrl`, `Shift` or `Alt` is entered in the table on the left
/// and on the right key, both bound to its id, with the scale and the
/// modifiers it was declared with.
pub proof fn lemma_split_binds_both<Id: PartialEq>(
    t: Table<Id>,
    id: Id,
    v: InputVariants,
    input: Input,
    left: Input,
    right: Input,
)
    requires
        v.spec_inputs() == seq![input],
        split_input(normalized_input(input)) == Some((left, right)),
    ensures
        left.identity() != right.identity(),
        bind_map(t, seq![(id, v)]).contains_key(left.identity()),
        bind_map(t, seq![(id, v)])[left.identity()].1 == id,
        bind_map(t, seq![(id, v)]).contains_key(right.identity()),
        bind_map(t, seq![(id, v)])[right.identity()].1 == id,
        bind_map(Table::<Id>::empty(), seq![(id, v)]) == Table::<Id>::empty().insert(
            left.identity(),
            (left, id),
        ).insert(right.identity(), (right, id)),
{
    lemma_bind_single(t, id, v, input);
    lemma_bind_single(Table::<Id>::empty(), id, v, input);
    let e = seq![left, right];
    assert(expanded(input) == e);
    lemma_bind_all_short(t, left, right, id);
    lemma_bind_all_short(Table::<Id>::empty(), left, right, id);
    match normalized_input(input) {
        Input::Axis(a) => {
            Axis::lemma_fields(a.spec_axis_id(), a.spec_scale(), a.spec_mods(), a, a);
            if let (Input::Axis(l), Input::Axis(r)) = (left, right) {
                Axis::lemma_fields(l.spec_axis_id(), l.spec_scale(), l.spec_mods(), l, r);
                if let AxisId::Key(k) = a.spec_axis_id() {
                    Axis::lemma_fields(
                        AxisId::Key(split_of_left(k)),
                        a.spec_scale(),
                        a.spec_mods(),
                        l,
                        r,
                    );
                    Axis::lemma_fields(
                        AxisId::Key(split_of_right(k)),
                        a.spec_scale(),
                        a.spec_mods(),
                        l,
                        r,
                    );
                }
            }
        },
        Input::Action(a) => {
            if let (Input::Action(l), Input::Action(r)) = (left, right) {
                Action::lemma_fields(split_of_left(a.spec_key()), a.spec_mods(), l, r);
                Action::lemma_fields(split_of_right(a.spec_key()), a.spec_mods(), l, r);
            }
        },
    }
}

spec fn split_of_left(k: VirtualKey) -> VirtualKey {
    match crate::key::split_of(k) {
        Some((l, _)) => l,
        None => k,
    }
}

spec fn split_of_right(k: VirtualKey) -> VirtualKey {
    match crate::key::split_of(k) {
        Some((_, r)) => r,
        None => k,
    }
}

/// Two entries that bind the same input to two different ids leave one entry
/// for it, bound to the later id, and meet exactly one collision: the later
/// input, with the earlier id and the later id.
pub proof fn lemma_collision_overwrites<Id: PartialEq>(
    first: Id,
    second: Id,
    v1: InputVariants,
    v2: InputVariants,
    a: Input,
    b: Input,
)
    requires
        v1.spec_inputs() == seq![a],
        v2.spec_inputs() == seq![b],
        split_input(normalized_input(a)) is None,
        split_input(normalized_input(b)) is None,
        normalized_input(a).identity() == normalized_input(b).identity(),
        !first.eq_spec(&second),
    ensures
        bind_map(Table::<Id>::empty(), seq![(first, v1), (second, v2)])
            == Table::<Id>::empty().insert(
            normalized_input(a).identity(),
            (normalized_input(a), second),
        ),
        collisions_map(Table::<Id>::empty(), seq![(first, v1), (second, v2)]) == seq![
            (normalized_input(b), first, second),
        ],
{
    let t0 = Table::<Id>::empty();
    let na = normalized_input(a);
    let nb = normalized_input(b);
    let entries = seq![(first, v1), (second, v2)];
    assert(entries.drop_last() =~= seq![(first, v1)]);
    assert(entries.last() == (second, v2));
    lemma_unsplit_binds_once(t0, first, v1, a);
    let t1 = bind_map(t0, seq![(first, v1)]);
    assert(expanded(a) == seq![na]);
    assert(expanded(b) == seq![nb]);
    let one = seq![b];
    assert(one.drop_last() =~= Seq::<Input>::empty());
    assert(one.last() == b);
    assert(expand_all(one.drop_last()) == Seq::<Input>::empty());
    assert(expand_all(one) =~= seq![nb]);
    lemma_bind_all_short(t1, nb, nb, second);
    lemma_bind_all_short(t0, na, na, first);
    let single = seq![(first, v1)];
    assert(single.drop_last() =~= Seq::<(Id, InputVariants)>::empty());
    assert(single.last() == (first, v1));
    let ia = seq![a];
    assert(ia.drop_last() =~= Seq::<Input>::empty());
    assert(ia.last() == a);
    assert(expand_all(ia.drop_last()) == Seq::<Input>::empty());
    assert(expand_all(ia) =~= seq![na]);
    assert(collisions_map(t0, Seq::<(Id, InputVariants)>::empty()) == Seq::<(Input, Id, Id)>::empty());
    assert(collisions_map(t0, single) =~= Seq::<(Input, Id, Id)>::empty());
    assert(bind_map(t0, entries) =~= t0.insert(na.identity(), (na, second)));
    assert(collisions_map(t0, entries) =~= seq![(nb, first, second)]);
}

/// A press of a key with no action bound but an axis bound goes to the axis's
/// id, with the bound scale; a release of it goes nowhere.
pub proof fn lemma_action_falls_back_to_axis<Id>(
    t: Table<Id>,
    action: Action,
    bound: Axis,
    id: Id,
)
    requires
        !t.contains_key(Input::Action(action).identity()),
        t.contains_key(Input::Axis(fallback_axis(action)).identity()),
        t[Input::Axis(fallback_axis(action)).identity()] == (Input::Axis(bound), id),
    ensures
        dispatch_action(t, action, InputEvent::Pressed) == Some(
            (id, InputKind::Axis(bound.spec_scale())),
        ),
        dispatch_action(t, action, InputEvent::Released) == None::<(Id, InputKind)>,
        axis_value_of(InputEvent::Pressed) == UNIT_SCALE,
{
}

} // verus!
