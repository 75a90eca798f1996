use apriori2::decode::{vkey, FAKE_KEY, VK_CONTROL, VK_LSHIFT, VK_RETURN, VK_RSHIFT, VK_SHIFT};
use apriori2::VirtualKey;

#[test]
fn decodes_letters_digits_and_function_keys() {
    assert_eq!(vkey(0x41, 0, false), Some(VirtualKey::A));
    assert_eq!(vkey(0x5A, 0, true), Some(VirtualKey::Z));
    assert_eq!(vkey(0x30, 0, false), Some(VirtualKey::Digit0));
    assert_eq!(vkey(0x39, 0, false), Some(VirtualKey::Digit9));
    assert_eq!(vkey(0x70, 0, false), Some(VirtualKey::F1));
    assert_eq!(vkey(0x87, 0, false), Some(VirtualKey::F24));
    assert_eq!(vkey(0xDF, 0, false), Some(VirtualKey::Oem8));
}

#[test]
fn extended_flag_picks_the_key() {
    assert_eq!(vkey(VK_CONTROL, 0, false), Some(VirtualKey::LeftCtrl));
    assert_eq!(vkey(VK_CONTROL, 0, true), Some(VirtualKey::RightCtrl));
    assert_eq!(vkey(VK_RETURN, 0, false), Some(VirtualKey::Enter));
    assert_eq!(vkey(VK_RETURN, 0, true), Some(VirtualKey::NumPadEnter));
    assert_eq!(vkey(0x2D, 0, false), Some(VirtualKey::NumPad0));
    assert_eq!(vkey(0x2D, 0, true), Some(VirtualKey::Insert));
    assert_eq!(vkey(0x12, 0, true), Some(VirtualKey::RightAlt));
}

#[test]
fn shift_side_comes_from_scan_code() {
    assert_eq!(vkey(VK_SHIFT, VK_LSHIFT, false), Some(VirtualKey::LeftShift));
    assert_eq!(vkey(VK_SHIFT, VK_RSHIFT, false), Some(VirtualKey::RightShift));
    assert_eq!(vkey(VK_SHIFT, 0, false), Some(VirtualKey::LeftShift));
}

#[test]
fn unknown_codes_decode_to_nothing() {
    assert_eq!(vkey(FAKE_KEY, 0, false), None);
    assert_eq!(vkey(0x00, 0, false), None);
    assert_eq!(vkey(0x3A, 0, false), None);
}

#[test]
fn decoded_keys_never_split() {
    for code in 0..=0xFFu16 {
        for is_e0 in [false, true] {
            if let Some(key) = vkey(code, VK_LSHIFT, is_e0) {
                assert!(!key.is_general_mod());
                assert_ne!(key, VirtualKey::OsCtrl);
            }
        }
    }
}
