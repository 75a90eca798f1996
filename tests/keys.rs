use apriori2::{Action, Error, KeyMods, KeyModsError, VirtualKey, OS_CTRL};

fn mods_of(bits: u32) -> KeyMods {
    KeyMods::from_bits(bits).unwrap()
}

#[test]
fn split_halves_belong_to_their_modifier() {
    for key in [VirtualKey::Ctrl, VirtualKey::Shift, VirtualKey::Alt] {
        let (left, right) = key.split_general_mod().unwrap();
        assert_eq!(left.as_general_mod(), Some(key));
        assert_eq!(right.as_general_mod(), Some(key));
        assert!(key.is_general_mod());
    }
    assert_eq!(
        VirtualKey::Ctrl.split_general_mod(),
        Some((VirtualKey::LeftCtrl, VirtualKey::RightCtrl))
    );
    assert_eq!(
        VirtualKey::Alt.split_general_mod(),
        Some((VirtualKey::LeftAlt, VirtualKey::RightAlt))
    );
}

#[test]
fn only_generic_modifiers_split() {
    for key in [
        VirtualKey::Cmd,
        VirtualKey::LeftCtrl,
        VirtualKey::RightShift,
        VirtualKey::A,
        VirtualKey::MouseLeft,
    ] {
        assert_eq!(key.split_general_mod(), None);
        assert!(!key.is_general_mod());
    }
}

#[test]
fn os_ctrl_is_a_general_modifier() {
    assert!(VirtualKey::OsCtrl.is_general_mod());
    assert_eq!(VirtualKey::OsCtrl.split_general_mod(), None);
    assert_eq!(
        VirtualKey::OsCtrl.normalized().split_general_mod(),
        Some((VirtualKey::LeftCtrl, VirtualKey::RightCtrl))
    );
}

#[test]
fn general_mod_of_keys() {
    assert_eq!(VirtualKey::RightCtrl.as_general_mod(), Some(VirtualKey::Ctrl));
    assert_eq!(VirtualKey::LeftShift.as_general_mod(), Some(VirtualKey::Shift));
    assert_eq!(VirtualKey::RightAlt.as_general_mod(), Some(VirtualKey::Alt));
    assert_eq!(VirtualKey::Cmd.as_general_mod(), Some(VirtualKey::Cmd));
    assert_eq!(VirtualKey::OsCtrl.as_general_mod(), Some(OS_CTRL));
    assert_eq!(VirtualKey::Space.as_general_mod(), None);
    assert_eq!(VirtualKey::LeftWin.as_general_mod(), None);
}

#[test]
fn os_ctrl_of_keys() {
    assert_eq!(VirtualKey::LeftCtrl.as_os_ctrl(), Some(VirtualKey::OsCtrl));
    assert_eq!(VirtualKey::Ctrl.as_os_ctrl(), Some(VirtualKey::OsCtrl));
    assert_eq!(VirtualKey::Cmd.as_os_ctrl(), None);
    assert_eq!(VirtualKey::Shift.as_os_ctrl(), None);
    assert_eq!(VirtualKey::Q.as_os_ctrl(), None);
}

#[test]
fn normalized_replaces_only_os_ctrl() {
    let n = VirtualKey::OsCtrl.normalized();
    assert_eq!(n, VirtualKey::Ctrl);
    assert_eq!(n, OS_CTRL);
    assert_eq!(n.normalized(), n);
    for key in [VirtualKey::Ctrl, VirtualKey::Cmd, VirtualKey::LeftAlt, VirtualKey::F12] {
        assert_eq!(key.normalized(), key);
    }
}

#[test]
fn key_mods_of_keys() {
    assert_eq!(VirtualKey::LeftCtrl.as_key_mods(), Some(KeyMods::ctrl()));
    assert_eq!(VirtualKey::Cmd.as_key_mods(), Some(KeyMods::cmd()));
    assert_eq!(VirtualKey::RightShift.as_key_mods(), Some(KeyMods::shift()));
    assert_eq!(VirtualKey::Alt.as_key_mods(), Some(KeyMods::alt()));
    assert_eq!(VirtualKey::OsCtrl.as_key_mods(), Some(KeyMods::ctrl()));
    assert_eq!(VirtualKey::Enter.as_key_mods(), None);
}

#[test]
fn key_mods_set_algebra() {
    let ctrl_shift = KeyMods::ctrl().union(KeyMods::shift());
    assert_eq!(ctrl_shift.bits(), 0x5);
    assert!(ctrl_shift.contains(KeyMods::ctrl()));
    assert!(!ctrl_shift.contains(KeyMods::alt()));
    assert!(ctrl_shift.contains(KeyMods::empty()));
    assert_eq!(ctrl_shift.intersection(KeyMods::shift()), KeyMods::shift());
    assert_eq!(ctrl_shift.difference(KeyMods::ctrl()), KeyMods::shift());
    assert_eq!(KeyMods::all().bits(), 0xF);
    assert!(KeyMods::empty().is_empty());
    let mut m = KeyMods::empty();
    m.insert(KeyMods::alt());
    m.set(KeyMods::cmd(), true);
    assert_eq!(m.bits(), 0xA);
    m.set(KeyMods::alt(), false);
    assert_eq!(m, KeyMods::cmd());
    m.remove(KeyMods::cmd());
    assert!(m.is_empty());
    assert_eq!(KeyMods::from_bits(0x10), None);
    assert_eq!(KeyMods::from_bits(0x3).map(|m| m.bits()), Some(0x3));
}

#[test]
fn key_mods_written_in_fixed_order() {
    assert_eq!(
        mods_of(0xF).to_keys(),
        vec![VirtualKey::Ctrl, VirtualKey::Cmd, VirtualKey::Shift, VirtualKey::Alt]
    );
    assert_eq!(mods_of(0x9).to_keys(), vec![VirtualKey::Ctrl, VirtualKey::Alt]);
    assert_eq!(KeyMods::empty().to_keys(), Vec::<VirtualKey>::new());
}

#[test]
fn key_mods_round_trip() {
    for bits in 0..16u32 {
        let m = mods_of(bits);
        let keys = m.to_keys();
        assert_eq!(KeyMods::from_keys(&keys), Ok(m));
    }
}

#[test]
fn key_mods_read_from_side_keys() {
    let keys = [VirtualKey::LeftShift, VirtualKey::RightAlt, VirtualKey::OsCtrl];
    assert_eq!(KeyMods::from_keys(&keys), Ok(mods_of(0xD)));
    assert_eq!(KeyMods::from_keys(&[]), Ok(KeyMods::empty()));
}

#[test]
fn key_mods_duplicate_fails() {
    let keys = [VirtualKey::Ctrl, VirtualKey::Ctrl];
    assert_eq!(
        KeyMods::from_keys(&keys),
        Err(KeyModsError::Duplicated(vec![VirtualKey::Ctrl]))
    );
}

#[test]
fn key_mods_duplicates_listed_once_in_order() {
    let keys = [
        VirtualKey::Ctrl,
        VirtualKey::Shift,
        VirtualKey::LeftCtrl,
        VirtualKey::RightShift,
        VirtualKey::LeftCtrl,
        VirtualKey::Alt,
    ];
    assert_eq!(
        KeyMods::from_keys(&keys),
        Err(KeyModsError::Duplicated(vec![VirtualKey::LeftCtrl, VirtualKey::RightShift]))
    );
}

#[test]
fn key_mods_non_modifier_fails() {
    assert_eq!(
        KeyMods::from_keys(&[VirtualKey::A]),
        Err(KeyModsError::NotModifier(VirtualKey::A))
    );
}

#[test]
fn key_mods_first_non_modifier_wins_over_duplicates() {
    let keys = [VirtualKey::Ctrl, VirtualKey::Ctrl, VirtualKey::Tab, VirtualKey::B];
    assert_eq!(
        KeyMods::from_keys(&keys),
        Err(KeyModsError::NotModifier(VirtualKey::Tab))
    );
}

#[test]
fn action_key_may_not_be_its_own_modifier() {
    assert_eq!(
        Action::new(VirtualKey::Ctrl, KeyMods::ctrl()),
        Err(Error::KeyAndModifierMatch(VirtualKey::Ctrl))
    );
    assert_eq!(
        Action::new(VirtualKey::RightAlt, mods_of(0x9)),
        Err(Error::KeyAndModifierMatch(VirtualKey::RightAlt))
    );
    let action = Action::new(VirtualKey::A, KeyMods::ctrl()).unwrap();
    assert_eq!(action.key(), VirtualKey::A);
    assert_eq!(action.mods(), KeyMods::ctrl());
    assert!(Action::new(VirtualKey::Ctrl, KeyMods::shift()).is_ok());
}

#[test]
fn action_normalized_keeps_mods() {
    let action = Action::new(VirtualKey::OsCtrl, KeyMods::shift()).unwrap();
    let n = action.normalized();
    assert_eq!(n.key(), VirtualKey::Ctrl);
    assert_eq!(n.mods(), KeyMods::shift());
    assert_eq!(Action::new(VirtualKey::OsCtrl, KeyMods::ctrl()).map(|a| a.key()),
        Err(Error::KeyAndModifierMatch(VirtualKey::OsCtrl)));
}
