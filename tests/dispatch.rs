use apriori2::{
    Action, Axis, AxisId, Input, InputEvent, InputHandler, InputKind, InputMap, InputVariants,
    KeyMods, VirtualKey, UNIT_SCALE,
};

#[derive(Clone, Copy, Debug, PartialEq, Eq)]
enum Id {
    Jump,
    Modify,
    Sprint,
    Fire,
    Zoom,
    Strafe,
    Menu,
}

fn bits(v: f32) -> u32 {
    v.to_bits()
}

fn action(key: VirtualKey, mods: KeyMods) -> Action {
    Action::new(key, mods).unwrap()
}

fn handler_of(entries: Vec<(Id, InputVariants)>) -> InputHandler<Id> {
    let mut handler = InputHandler::new();
    handler.update_inputs(&InputMap::new(entries));
    handler
}

#[test]
fn axis_equality_ignores_scale() {
    let mods = KeyMods::shift();
    let a = Axis::new(AxisId::MouseWheel, bits(2.0), mods);
    let b = Axis::new(AxisId::MouseWheel, bits(5.0), mods);
    assert_eq!(a, b);
    assert_eq!(Input::from(a), Input::from(b));
    assert_ne!(a, Axis::new(AxisId::MouseWheel, bits(2.0), KeyMods::empty()));
    assert_ne!(a, Axis::new(AxisId::MousePositionX, bits(2.0), mods));
    assert_eq!(a.scale(), bits(2.0));
    assert_eq!(Axis::with_unit_scale(AxisId::MouseWheel, mods).scale(), bits(1.0));
}

#[test]
fn axis_from_action_has_unit_scale() {
    let axis = Axis::from(action(VirtualKey::F, KeyMods::alt()));
    assert_eq!(axis.axis_id(), AxisId::Key(VirtualKey::F));
    assert_eq!(axis.scale(), UNIT_SCALE);
    assert_eq!(f32::from_bits(axis.scale()), 1.0);
    assert_eq!(axis.mods(), KeyMods::alt());
}

#[test]
fn axis_normalized_replaces_os_ctrl() {
    let axis = Axis::new(AxisId::Key(VirtualKey::OsCtrl), bits(-1.5), KeyMods::alt());
    let n = axis.normalized();
    assert_eq!(n.axis_id(), AxisId::Key(VirtualKey::Ctrl));
    assert_eq!(n.scale(), bits(-1.5));
    assert_eq!(AxisId::MouseWheel.normalized(), AxisId::MouseWheel);
}

#[test]
fn event_axis_values() {
    assert_eq!(f32::from_bits(InputEvent::Pressed.axis_value()), 1.0);
    assert_eq!(f32::from_bits(InputEvent::Released.axis_value()), 0.0);
    assert_eq!(InputEvent::Axis(bits(-3.25)).axis_value(), bits(-3.25));
}

#[test]
fn input_split_copies_scale_and_mods() {
    let input = Input::Axis(Axis::new(AxisId::Key(VirtualKey::Alt), bits(0.5), KeyMods::cmd()));
    let (left, right) = input.split_general_mod().unwrap();
    match (left, right) {
        (Input::Axis(l), Input::Axis(r)) => {
            assert_eq!(l.axis_id(), AxisId::Key(VirtualKey::LeftAlt));
            assert_eq!(r.axis_id(), AxisId::Key(VirtualKey::RightAlt));
            assert_eq!(l.scale(), bits(0.5));
            assert_eq!(r.mods(), KeyMods::cmd());
        }
        _ => panic!("split changed the kind of input"),
    }
    let pressed = Input::Action(action(VirtualKey::Shift, KeyMods::ctrl()));
    let (left, right) = pressed.split_general_mod().unwrap();
    assert_eq!(left, Input::Action(action(VirtualKey::LeftShift, KeyMods::ctrl())));
    assert_eq!(right, Input::Action(action(VirtualKey::RightShift, KeyMods::ctrl())));
    assert_eq!(Input::Action(action(VirtualKey::A, KeyMods::empty())).split_general_mod(), None);
    assert_eq!(Input::Axis(Axis::with_unit_scale(AxisId::MouseWheel, KeyMods::empty()))
        .split_general_mod(), None);
}

#[test]
fn variants_as_inputs() {
    let v = InputVariants::Action(vec![
        action(VirtualKey::A, KeyMods::empty()),
        action(VirtualKey::B, KeyMods::shift()),
    ]);
    let inputs = v.to_inputs();
    assert_eq!(inputs.len(), 2);
    assert_eq!(inputs[1], Input::Action(action(VirtualKey::B, KeyMods::shift())));
}

#[test]
fn single_action_binds_one_entry() {
    let space = action(VirtualKey::Space, KeyMods::empty());
    let handler = handler_of(vec![(Id::Jump, InputVariants::Action(vec![space]))]);
    assert_eq!(handler.entries().len(), 1);
    assert_eq!(handler.entries()[0], (Input::Action(space), Id::Jump));
    assert_eq!(
        handler.lookup(&Input::Action(space)),
        Some((Input::Action(space), Id::Jump))
    );
    assert_eq!(
        handler.run_action_handler(space, InputEvent::Pressed),
        Some((Id::Jump, InputKind::Action))
    );
}

#[test]
fn bare_ctrl_action_is_accepted_and_split() {
    let ctrl = Action::new(VirtualKey::Ctrl, KeyMods::empty()).unwrap();
    let handler = handler_of(vec![(Id::Modify, InputVariants::Action(vec![ctrl]))]);
    assert_eq!(handler.entries().len(), 2);
    for key in [VirtualKey::LeftCtrl, VirtualKey::RightCtrl] {
        assert_eq!(
            handler.run_action_handler(action(key, KeyMods::empty()), InputEvent::Released),
            Some((Id::Modify, InputKind::Action))
        );
    }
    assert_eq!(
        handler.run_action_handler(ctrl, InputEvent::Pressed),
        None
    );
}

#[test]
fn shift_axis_binds_both_sides() {
    let shift = Axis::new(AxisId::Key(VirtualKey::Shift), bits(1.0), KeyMods::empty());
    let handler = handler_of(vec![(Id::Sprint, InputVariants::Axis(vec![shift]))]);
    assert_eq!(handler.entries().len(), 2);
    for key in [VirtualKey::LeftShift, VirtualKey::RightShift] {
        let probe = Axis::with_unit_scale(AxisId::Key(key), KeyMods::empty());
        assert_eq!(
            handler.lookup(&Input::Axis(probe)).map(|(_, id)| id),
            Some(Id::Sprint)
        );
        assert_eq!(
            handler.run_axis_handler(probe),
            Some((Id::Sprint, InputKind::Axis(bits(1.0))))
        );
    }
    let generic = Axis::with_unit_scale(AxisId::Key(VirtualKey::Shift), KeyMods::empty());
    assert_eq!(handler.run_axis_handler(generic), None);
}

#[test]
fn os_ctrl_binding_normalizes_then_splits() {
    let os = action(VirtualKey::OsCtrl, KeyMods::shift());
    let handler = handler_of(vec![(Id::Menu, InputVariants::Action(vec![os]))]);
    assert_eq!(handler.entries().len(), 2);
    assert_eq!(
        handler.run_action_handler(action(VirtualKey::RightCtrl, KeyMods::shift()), InputEvent::Pressed),
        Some((Id::Menu, InputKind::Action))
    );
    assert_eq!(
        handler.run_action_handler(action(VirtualKey::RightCtrl, KeyMods::empty()), InputEvent::Pressed),
        None
    );
}

#[test]
fn collision_keeps_latest_id() {
    let fire = action(VirtualKey::MouseLeft, KeyMods::empty());
    let handler = handler_of(vec![
        (Id::Fire, InputVariants::Action(vec![fire])),
        (Id::Jump, InputVariants::Action(vec![fire])),
    ]);
    assert_eq!(handler.entries().len(), 1);
    assert_eq!(
        handler.run_action_handler(fire, InputEvent::Pressed),
        Some((Id::Jump, InputKind::Action))
    );
}

#[test]
fn collision_is_reported_once() {
    let fire = action(VirtualKey::MouseLeft, KeyMods::empty());
    let mut handler = InputHandler::new();
    let collisions = handler.update_inputs(&InputMap::new(vec![
        (Id::Fire, InputVariants::Action(vec![fire])),
        (Id::Jump, InputVariants::Action(vec![fire])),
    ]));
    assert_eq!(collisions, vec![(Input::Action(fire), Id::Fire, Id::Jump)]);
    let again = handler.update_inputs(&InputMap::new(vec![(
        Id::Menu,
        InputVariants::Action(vec![fire]),
    )]));
    assert_eq!(again, vec![(Input::Action(fire), Id::Jump, Id::Menu)]);
}

#[test]
fn insert_reports_previous_id_and_keeps_first_input() {
    let mut handler: InputHandler<Id> = InputHandler::new();
    let first = Input::Axis(Axis::new(AxisId::MouseWheel, bits(2.0), KeyMods::empty()));
    let second = Input::Axis(Axis::new(AxisId::MouseWheel, bits(7.0), KeyMods::empty()));
    assert_eq!(handler.insert_input(first, Id::Zoom), None);
    assert_eq!(handler.insert_input(second, Id::Strafe), Some(Id::Zoom));
    assert_eq!(handler.entries().len(), 1);
    let probe = Axis::with_unit_scale(AxisId::MouseWheel, KeyMods::empty());
    assert_eq!(
        handler.run_axis_handler(probe),
        Some((Id::Strafe, InputKind::Axis(bits(2.0))))
    );
}

#[test]
fn axis_dispatch_uses_bound_scale() {
    let wheel = Axis::new(AxisId::MouseWheel, bits(2.0), KeyMods::ctrl());
    let handler = handler_of(vec![(Id::Zoom, InputVariants::Axis(vec![wheel]))]);
    let probe = Axis::new(AxisId::MouseWheel, bits(5.0), KeyMods::ctrl());
    let (id, kind) = handler.run_axis_handler(probe).unwrap();
    assert_eq!(id, Id::Zoom);
    assert_eq!(kind, InputKind::Axis(bits(2.0)));
    let (value, scale) = kind.axis_call(InputEvent::Axis(bits(3.0))).unwrap();
    assert_eq!(f32::from_bits(value) * f32::from_bits(scale), 6.0);
    let other_mods = Axis::new(AxisId::MouseWheel, bits(2.0), KeyMods::empty());
    assert_eq!(handler.run_axis_handler(other_mods), None);
}

#[test]
fn press_falls_back_to_key_axis() {
    let f_axis = Axis::new(AxisId::Key(VirtualKey::F), bits(3.0), KeyMods::empty());
    let handler = handler_of(vec![(Id::Strafe, InputVariants::Axis(vec![f_axis]))]);
    let f = Action::new(VirtualKey::F, KeyMods::empty()).unwrap();
    let (id, kind) = handler.run_action_handler(f, InputEvent::Pressed).unwrap();
    assert_eq!(id, Id::Strafe);
    assert_eq!(kind, InputKind::Axis(bits(3.0)));
    let (value, scale) = kind.axis_call(InputEvent::Pressed).unwrap();
    assert_eq!(f32::from_bits(value) * f32::from_bits(scale), 3.0);
    assert_eq!(handler.run_action_handler(f, InputEvent::Released), None);
}

#[test]
fn action_binding_wins_over_axis_fallback() {
    let f = action(VirtualKey::F, KeyMods::empty());
    let f_axis = Axis::new(AxisId::Key(VirtualKey::F), bits(3.0), KeyMods::empty());
    let handler = handler_of(vec![
        (Id::Strafe, InputVariants::Axis(vec![f_axis])),
        (Id::Fire, InputVariants::Action(vec![f])),
    ]);
    assert_eq!(
        handler.run_action_handler(f, InputEvent::Released),
        Some((Id::Fire, InputKind::Action))
    );
}

#[test]
fn axis_callback_skips_action_kind() {
    assert_eq!(InputKind::Action.axis_call(InputEvent::Pressed), None);
    assert!(InputKind::Action.action_call());
    assert!(!InputKind::Axis(bits(1.0)).action_call());
    assert_eq!(
        InputKind::Axis(bits(4.0)).axis_call(InputEvent::Released),
        Some((bits(0.0), bits(4.0)))
    );
}

#[test]
fn key_events_track_held_modifiers() {
    let mut handler = handler_of(vec![
        (Id::Fire, InputVariants::Action(vec![action(VirtualKey::A, KeyMods::ctrl())])),
        (Id::Modify, InputVariants::Action(vec![action(VirtualKey::Ctrl, KeyMods::empty())])),
        (Id::Menu, InputVariants::Action(vec![action(VirtualKey::MouseLeft, KeyMods::ctrl())])),
    ]);
    assert_eq!(
        handler.run_key_event(VirtualKey::LeftCtrl, true),
        Some((Id::Modify, InputKind::Action))
    );
    assert_eq!(handler.held_mods(), KeyMods::ctrl());
    assert_eq!(
        handler.run_key_event(VirtualKey::A, true),
        Some((Id::Fire, InputKind::Action))
    );
    assert_eq!(
        handler.run_key_event(VirtualKey::MouseLeft, false),
        Some((Id::Menu, InputKind::Action))
    );
    assert_eq!(
        handler.run_key_event(VirtualKey::RightCtrl, false),
        Some((Id::Modify, InputKind::Action))
    );
    assert!(handler.held_mods().is_empty());
    assert_eq!(handler.run_key_event(VirtualKey::A, true), None);
}

#[test]
fn empty_map_binds_nothing() {
    let handler = handler_of(vec![]);
    assert_eq!(handler.entries().len(), 0);
    let a = action(VirtualKey::A, KeyMods::empty());
    assert_eq!(handler.run_action_handler(a, InputEvent::Pressed), None);
    assert_eq!(InputMap::<Id>::new(vec![]).hash_map().len(), 0);
}

#[test]
fn default_handler_is_empty() {
    let handler: InputHandler<Id> = InputHandler::default();
    assert_eq!(handler.entries().len(), 0);
    assert!(handler.held_mods().is_empty());
}

#[test]
fn input_normalized_replaces_os_ctrl() {
    let input = Input::Action(action(VirtualKey::OsCtrl, KeyMods::alt()));
    assert_eq!(
        input.normalized(),
        Input::Action(action(VirtualKey::Ctrl, KeyMods::alt()))
    );
    let axis = Input::Axis(Axis::new(AxisId::Key(VirtualKey::OsCtrl), bits(2.0), KeyMods::empty()));
    match axis.normalized() {
        Input::Axis(a) => {
            assert_eq!(a.axis_id(), AxisId::Key(VirtualKey::Ctrl));
            assert_eq!(a.scale(), bits(2.0));
        }
        Input::Action(_) => panic!("normalizing changed the kind of input"),
    }
}

#[test]
fn rebinding_to_the_same_id_is_no_collision() {
    let fire = action(VirtualKey::MouseLeft, KeyMods::empty());
    let mut handler = InputHandler::new();
    let collisions = handler.update_inputs(&InputMap::new(vec![(
        Id::Fire,
        InputVariants::Action(vec![fire, fire]),
    )]));
    assert_eq!(collisions, vec![]);
    assert_eq!(handler.entries().len(), 1);
    assert_eq!(handler.insert_input(Input::Action(fire), Id::Fire), None);
    assert_eq!(handler.insert_input(Input::Action(fire), Id::Jump), Some(Id::Fire));
}
