use vstd::prelude::*;

use crate::key::{split_of, VirtualKey};

verus! {

// Windows virtual-key codes. Letters and digits are their ASCII codes and
// have no names.
pub const VK_BACK: u16 = 0x08;

pub const VK_TAB: u16 = 0x09;

pub const VK_CLEAR: u16 = 0x0C;

pub const VK_RETURN: u16 = 0x0D;

pub const VK_SHIFT: u16 = 0x10;

pub const VK_CONTROL: u16 = 0x11;

pub const VK_MENU: u16 = 0x12;

pub const VK_PAUSE: u16 = 0x13;

pub const VK_CAPITAL: u16 = 0x14;

pub const VK_ESCAPE: u16 = 0x1B;

pub const VK_SPACE: u16 = 0x20;

pub const VK_PRIOR: u16 = 0x21;

pub const VK_NEXT: u16 = 0x22;

pub const VK_END: u16 = 0x23;

pub const VK_HOME: u16 = 0x24;

pub const VK_LEFT: u16 = 0x25;

pub const VK_UP: u16 = 0x26;

pub const VK_RIGHT: u16 = 0x27;

pub const VK_DOWN: u16 = 0x28;

pub const VK_INSERT: u16 = 0x2D;

pub const VK_DELETE: u16 = 0x2E;

pub const VK_LWIN: u16 = 0x5B;

pub const VK_RWIN: u16 = 0x5C;

pub const VK_MULTIPLY: u16 = 0x6A;

pub const VK_ADD: u16 = 0x6B;

pub const VK_SEPARATOR: u16 = 0x6C;

pub const VK_SUBTRACT: u16 = 0x6D;

pub const VK_DIVIDE: u16 = 0x6F;

pub const VK_F1: u16 = 0x70;

pub const VK_F2: u16 = 0x71;

pub const VK_F3: u16 = 0x72;

pub const VK_F4: u16 = 0x73;

pub const VK_F5: u16 = 0x74;

pub const VK_F6: u16 = 0x75;

pub const VK_F7: u16 = 0x76;

pub const VK_F8: u16 = 0x77;

pub const VK_F9: u16 = 0x78;

pub const VK_F10: u16 = 0x79;

pub const VK_F11: u16 = 0x7A;

pub const VK_F12: u16 = 0x7B;

pub const VK_F13: u16 = 0x7C;

pub const VK_F14: u16 = 0x7D;

pub const VK_F15: u16 = 0x7E;

pub const VK_F16: u16 = 0x7F;

pub const VK_F17: u16 = 0x80;

pub const VK_F18: u16 = 0x81;

pub const VK_F19: u16 = 0x82;

pub const VK_F20: u16 = 0x83;

pub const VK_F21: u16 = 0x84;

pub const VK_F22: u16 = 0x85;

pub const VK_F23: u16 = 0x86;

pub const VK_F24: u16 = 0x87;

pub const VK_NUMLOCK: u16 = 0x90;

pub const VK_SCROLL: u16 = 0x91;

pub const VK_LSHIFT: u16 = 0xA0;

pub const VK_RSHIFT: u16 = 0xA1;

pub const VK_OEM_1: u16 = 0xBA;

pub const VK_OEM_PLUS: u16 = 0xBB;

pub const VK_OEM_COMMA: u16 = 0xBC;

pub const VK_OEM_MINUS: u16 = 0xBD;

pub const VK_OEM_PERIOD: u16 = 0xBE;

pub const VK_OEM_2: u16 = 0xBF;

pub const VK_OEM_3: u16 = 0xC0;

pub const VK_OEM_4: u16 = 0xDB;

pub const VK_OEM_5: u16 = 0xDC;

pub const VK_OEM_6: u16 = 0xDD;

pub const VK_OEM_7: u16 = 0xDE;

pub const VK_OEM_8: u16 = 0xDF;

/// The code that raw keyboard input reports for keys that stand for no
/// physical key.
pub const FAKE_KEY: u16 = 0xFF;

/// The key that a raw keyboard record stands for.
///
/// `code` is the record's virtual-key code and `is_e0` its extended-key flag,
/// which tells the right `Ctrl` and `Alt` and the navigation block apart from
/// the left keys and the number pad. For `VK_SHIFT`, `shift_code` is the code
/// of the side that the record's scan code maps to: `VK_RSHIFT` reads as the
/// right `Shift`, any other code as the left one.
pub open spec fn decoded_key(code: u16, shift_code: u16, is_e0: bool) -> Option<VirtualKey> {
    match code {
        VK_CONTROL => Some(if is_e0 { VirtualKey::RightCtrl } else { VirtualKey::LeftCtrl }),
        VK_MENU => Some(if is_e0 { VirtualKey::RightAlt } else { VirtualKey::LeftAlt }),
        VK_RETURN => Some(if is_e0 { VirtualKey::NumPadEnter } else { VirtualKey::Enter }),
        VK_INSERT => Some(if is_e0 { VirtualKey::Insert } else { VirtualKey::NumPad0 }),
        VK_DELETE => Some(if is_e0 { VirtualKey::Delete } else { VirtualKey::Decimal }),
        VK_HOME => Some(if is_e0 { VirtualKey::Home } else { VirtualKey::NumPad7 }),
        VK_END => Some(if is_e0 { VirtualKey::End } else { VirtualKey::NumPad1 }),
        VK_PRIOR => Some(if is_e0 { VirtualKey::PageUp } else { VirtualKey::NumPad9 }),
        VK_NEXT => Some(if is_e0 { VirtualKey::PageDown } else { VirtualKey::NumPad3 }),
        VK_LEFT => Some(if is_e0 { VirtualKey::Left } else { VirtualKey::NumPad4 }),
        VK_RIGHT => Some(if is_e0 { VirtualKey::Right } else { VirtualKey::NumPad6 }),
        VK_UP => Some(if is_e0 { VirtualKey::Up } else { VirtualKey::NumPad8 }),
        VK_DOWN => Some(if is_e0 { VirtualKey::Down } else { VirtualKey::NumPad2 }),
        VK_CLEAR => Some(if is_e0 { VirtualKey::Clear } else { VirtualKey::NumPad5 }),
        VK_SHIFT => if shift_code == VK_RSHIFT { Some(VirtualKey::RightShift) } else { Some(VirtualKey::LeftShift) },
        VK_BACK => Some(VirtualKey::Backspace),
        VK_TAB => Some(VirtualKey::Tab),
        VK_PAUSE => Some(VirtualKey::Pause),
        VK_CAPITAL => Some(VirtualKey::CapsLock),
        VK_ESCAPE => Some(VirtualKey::Escape),
        VK_SPACE => Some(VirtualKey::Space),
        VK_LWIN => Some(VirtualKey::LeftWin),
        VK_RWIN => Some(VirtualKey::RightWin),
        0x30 => Some(VirtualKey::Digit0),
        0x31 => Some(VirtualKey::Digit1),
        0x32 => Some(VirtualKey::Digit2),
        0x33 => Some(VirtualKey::Digit3),
        0x34 => Some(VirtualKey::Digit4),
        0x35 => Some(VirtualKey::Digit5),
        0x36 => Some(VirtualKey::Digit6),
        0x37 => Some(VirtualKey::Digit7),
        0x38 => Some(VirtualKey::Digit8),
        0x39 => Some(VirtualKey::Digit9),
        0x41 => Some(VirtualKey::A),
        0x42 => Some(VirtualKey::B),
        0x43 => Some(VirtualKey::C),
        0x44 => Some(VirtualKey::D),
        0x45 => Some(VirtualKey::E),
        0x46 => Some(VirtualKey::F),
        0x47 => Some(VirtualKey::G),
        0x48 => Some(VirtualKey::H),
        0x49 => Some(VirtualKey::I),
        0x4A => Some(VirtualKey::J),
        0x4B => Some(VirtualKey::K),
        0x4C => Some(VirtualKey::L),
        0x4D => Some(VirtualKey::M),
        0x4E => Some(VirtualKey::N),
        0x4F => Some(VirtualKey::O),
        0x50 => Some(VirtualKey::P),
        0x51 => Some(VirtualKey::Q),
        0x52 => Some(VirtualKey::R),
        0x53 => Some(VirtualKey::S),
        0x54 => Some(VirtualKey::T),
        0x55 => Some(VirtualKey::U),
        0x56 => Some(VirtualKey::V),
        0x57 => Some(VirtualKey::W),
        0x58 => Some(VirtualKey::X),
        0x59 => Some(VirtualKey::Y),
        0x5A => Some(VirtualKey::Z),
        VK_MULTIPLY => Some(VirtualKey::Multiply),
        VK_ADD => Some(VirtualKey::Add),
        VK_SEPARATOR => Some(VirtualKey::Separator),
        VK_SUBTRACT => Some(VirtualKey::Substract),
        VK_DIVIDE => Some(VirtualKey::Divide),
        VK_F1 => Some(VirtualKey::F1),
        VK_F2 => Some(VirtualKey::F2),
        VK_F3 => Some(VirtualKey::F3),
        VK_F4 => Some(VirtualKey::F4),
        VK_F5 => Some(VirtualKey::F5),
        VK_F6 => Some(VirtualKey::F6),
        VK_F7 => Some(VirtualKey::F7),
        VK_F8 => Some(VirtualKey::F8),
        VK_F9 => Some(VirtualKey::F9),
        VK_F10 => Some(VirtualKey::F10),
        VK_F11 => Some(VirtualKey::F11),
        VK_F12 => Some(VirtualKey::F12),
        VK_F13 => Some(VirtualKey::F13),
        VK_F14 => Some(VirtualKey::F14),
        VK_F15 => Some(VirtualKey::F15),
        VK_F16 => Some(VirtualKey::F16),
        VK_F17 => Some(VirtualKey::F17),
        VK_F18 => Some(VirtualKey::F18),
        VK_F19 => Some(VirtualKey::F19),
        VK_F20 => Some(VirtualKey::F20),
        VK_F21 => Some(VirtualKey::F21),
        VK_F22 => Some(VirtualKey::F22),
        VK_F23 => Some(VirtualKey::F23),
        VK_F24 => Some(VirtualKey::F24),
        VK_NUMLOCK => Some(VirtualKey::NumLock),
        VK_SCROLL => Some(VirtualKey::ScrollLock),
        VK_OEM_1 => Some(VirtualKey::Oem1),
        VK_OEM_PLUS => Some(VirtualKey::OemPlus),
        VK_OEM_COMMA => Some(VirtualKey::OemComma),
        VK_OEM_MINUS => Some(VirtualKey::OemMinus),
        VK_OEM_PERIOD => Some(VirtualKey::OemPeriod),
        VK_OEM_2 => Some(VirtualKey::Oem2),
        VK_OEM_3 => Some(VirtualKey::Oem3),
        VK_OEM_4 => Some(VirtualKey::Oem4),
        VK_OEM_5 => Some(VirtualKey::Oem5),
        VK_OEM_6 => Some(VirtualKey::Oem6),
        VK_OEM_7 => Some(VirtualKey::Oem7),
        VK_OEM_8 => Some(VirtualKey::Oem8),
        _ => None,
    }
}

/// Decodes a raw keyboard record into the key it stands for; `None` for a
/// code that stands for no key of `VirtualKey`.
pub fn vkey(code: u16, shift_code: u16, is_e0: bool) -> (r: Option<VirtualKey>)
    ensures
        r == decoded_key(code, shift_code, is_e0),
{
    match code {
        VK_CONTROL => Some(if is_e0 { VirtualKey::RightCtrl } else { VirtualKey::LeftCtrl }),
        VK_MENU => Some(if is_e0 { VirtualKey::RightAlt } else { VirtualKey::LeftAlt }),
        VK_RETURN => Some(if is_e0 { VirtualKey::NumPadEnter } else { VirtualKey::Enter }),
        VK_INSERT => Some(if is_e0 { VirtualKey::Insert } else { VirtualKey::NumPad0 }),
        VK_DELETE => Some(if is_e0 { VirtualKey::Delete } else { VirtualKey::Decimal }),
        VK_HOME => Some(if is_e0 { VirtualKey::Home } else { VirtualKey::NumPad7 }),
        VK_END => Some(if is_e0 { VirtualKey::End } else { VirtualKey::NumPad1 }),
        VK_PRIOR => Some(if is_e0 { VirtualKey::PageUp } else { VirtualKey::NumPad9 }),
        VK_NEXT => Some(if is_e0 { VirtualKey::PageDown } else { VirtualKey::NumPad3 }),
        VK_LEFT => Some(if is_e0 { VirtualKey::Left } else { VirtualKey::NumPad4 }),
        VK_RIGHT => Some(if is_e0 { VirtualKey::Right } else { VirtualKey::NumPad6 }),
        VK_UP => Some(if is_e0 { VirtualKey::Up } else { VirtualKey::NumPad8 }),
        VK_DOWN => Some(if is_e0 { VirtualKey::Down } else { VirtualKey::NumPad2 }),
        VK_CLEAR => Some(if is_e0 { VirtualKey::Clear } else { VirtualKey::NumPad5 }),
        VK_SHIFT => if shift_code == VK_RSHIFT { Some(VirtualKey::RightShift) } else { Some(VirtualKey::LeftShift) },
        VK_BACK => Some(VirtualKey::Backspace),
        VK_TAB => Some(VirtualKey::Tab),
        VK_PAUSE => Some(VirtualKey::Pause),
        VK_CAPITAL => Some(VirtualKey::CapsLock),
        VK_ESCAPE => Some(VirtualKey::Escape),
        VK_SPACE => Some(VirtualKey::Space),
        VK_LWIN => Some(VirtualKey::LeftWin),
        VK_RWIN => Some(VirtualKey::RightWin),
        0x30 => Some(VirtualKey::Digit0),
        0x31 => Some(VirtualKey::Digit1),
        0x32 => Some(VirtualKey::Digit2),
        0x33 => Some(VirtualKey::Digit3),
        0x34 => Some(VirtualKey::Digit4),
        0x35 => Some(VirtualKey::Digit5),
        0x36 => Some(VirtualKey::Digit6),
        0x37 => Some(VirtualKey::Digit7),
        0x38 => Some(VirtualKey::Digit8),
        0x39 => Some(VirtualKey::Digit9),
        0x41 => Some(VirtualKey::A),
        0x42 => Some(VirtualKey::B),
        0x43 => Some(VirtualKey::C),
        0x44 => Some(VirtualKey::D),
        0x45 => Some(VirtualKey::E),
        0x46 => Some(VirtualKey::F),
        0x47 => Some(VirtualKey::G),
        0x48 => Some(VirtualKey::H),
        0x49 => Some(VirtualKey::I),
        0x4A => Some(VirtualKey::J),
        0x4B => Some(VirtualKey::K),
        0x4C => Some(VirtualKey::L),
        0x4D => Some(VirtualKey::M),
        0x4E => Some(VirtualKey::N),
        0x4F => Some(VirtualKey::O),
        0x50 => Some(VirtualKey::P),
        0x51 => Some(VirtualKey::Q),
        0x52 => Some(VirtualKey::R),
        0x53 => Some(VirtualKey::S),
        0x54 => Some(VirtualKey::T),
        0x55 => Some(VirtualKey::U),
        0x56 => Some(VirtualKey::V),
        0x57 => Some(VirtualKey::W),
        0x58 => Some(VirtualKey::X),
        0x59 => Some(VirtualKey::Y),
        0x5A => Some(VirtualKey::Z),
        VK_MULTIPLY => Some(VirtualKey::Multiply),
        VK_ADD => Some(VirtualKey::Add),
        VK_SEPARATOR => Some(VirtualKey::Separator),
        VK_SUBTRACT => Some(VirtualKey::Substract),
        VK_DIVIDE => Some(VirtualKey::Divide),
        VK_F1 => Some(VirtualKey::F1),
        VK_F2 => Some(VirtualKey::F2),
        VK_F3 => Some(VirtualKey::F3),
        VK_F4 => Some(VirtualKey::F4),
        VK_F5 => Some(VirtualKey::F5),
        VK_F6 => Some(VirtualKey::F6),
        VK_F7 => Some(VirtualKey::F7),
        VK_F8 => Some(VirtualKey::F8),
        VK_F9 => Some(VirtualKey::F9),
        VK_F10 => Some(VirtualKey::F10),
        VK_F11 => Some(VirtualKey::F11),
        VK_F12 => Some(VirtualKey::F12),
        VK_F13 => Some(VirtualKey::F13),
        VK_F14 => Some(VirtualKey::F14),
        VK_F15 => Some(VirtualKey::F15),
        VK_F16 => Some(VirtualKey::F16),
        VK_F17 => Some(VirtualKey::F17),
        VK_F18 => Some(VirtualKey::F18),
        VK_F19 => Some(VirtualKey::F19),
        VK_F20 => Some(VirtualKey::F20),
        VK_F21 => Some(VirtualKey::F21),
        VK_F22 => Some(VirtualKey::F22),
        VK_F23 => Some(VirtualKey::F23),
        VK_F24 => Some(VirtualKey::F24),
        VK_NUMLOCK => Some(VirtualKey::NumLock),
        VK_SCROLL => Some(VirtualKey::ScrollLock),
        VK_OEM_1 => Some(VirtualKey::Oem1),
        VK_OEM_PLUS => Some(VirtualKey::OemPlus),
        VK_OEM_COMMA => Some(VirtualKey::OemComma),
        VK_OEM_MINUS => Some(VirtualKey::OemMinus),
        VK_OEM_PERIOD => Some(VirtualKey::OemPeriod),
        VK_OEM_2 => Some(VirtualKey::Oem2),
        VK_OEM_3 => Some(VirtualKey::Oem3),
        VK_OEM_4 => Some(VirtualKey::Oem4),
        VK_OEM_5 => Some(VirtualKey::Oem5),
        VK_OEM_6 => Some(VirtualKey::Oem6),
        VK_OEM_7 => Some(VirtualKey::Oem7),
        VK_OEM_8 => Some(VirtualKey::Oem8),
        _ => None,
    }
}

/// A decoded key is always a key of one side: never a generic modifier, nor
/// `OsCtrl` or `Cmd`.
pub proof fn lemma_decoded_keys_are_sided(code: u16, shift_code: u16, is_e0: bool)
    ensures
        decoded_key(code, shift_code, is_e0) matches Some(k) ==> split_of(k) is None && k
            != VirtualKey::OsCtrl && k != VirtualKey::Cmd,
{
}

} // verus!
