use vstd::prelude::*;

use crate::key_mods::{KeyMods, ALT_BIT, CMD_BIT, CTRL_BIT, SHIFT_BIT};

verus! {

/// A physical key or mouse button.
///
/// `Ctrl`, `Shift` and `Alt` are the generic modifiers; each also exists as a
/// left and a right key. `Cmd` has no left/right split.
#[derive(Clone, Copy, Debug, PartialEq, Eq, Hash, Structural)]
pub enum VirtualKey {
    MouseLeft,
    MouseMiddle,
    MouseRight,
    MouseX1,
    MouseX2,
    Backspace,
    Tab,
    Enter,
    NumPadEnter,
    Shift,
    Ctrl,
    Alt,
    Cmd,
    /// The platform's primary modifier: `Ctrl` on Windows, `Cmd` on macOS.
    OsCtrl,
    Pause,
    CapsLock,
    Escape,
    Space,
    PageUp,
    PageDown,
    End,
    Home,
    Up,
    Down,
    Left,
    Right,
    Insert,
    Delete,
    LeftWin,
    RightWin,
    A,
    B,
    C,
    D,
    E,
    F,
    G,
    H,
    I,
    J,
    K,
    L,
    M,
    N,
    O,
    P,
    Q,
    R,
    S,
    T,
    U,
    V,
    W,
    X,
    Y,
    Z,
    Digit0,
    Digit1,
    Digit2,
    Digit3,
    Digit4,
    Digit5,
    Digit6,
    Digit7,
    Digit8,
    Digit9,
    NumPad0,
    NumPad1,
    NumPad2,
    NumPad3,
    NumPad4,
    NumPad5,
    NumPad6,
    NumPad7,
    NumPad8,
    NumPad9,
    Clear,
    Multiply,
    Add,
    Separator,
    Substract,
    Decimal,
    Divide,
    F1,
    F2,
    F3,
    F4,
    F5,
    F6,
    F7,
    F8,
    F9,
    F10,
    F11,
    F12,
    F13,
    F14,
    F15,
    F16,
    F17,
    F18,
    F19,
    F20,
    F21,
    F22,
    F23,
    F24,
    NumLock,
    ScrollLock,
    LeftShift,
    RightShift,
    LeftCtrl,
    RightCtrl,
    LeftAlt,
    RightAlt,
    // OEM keys: miscellaneous characters that vary by keyboard.
    /// For the US standard keyboard, the ';:' key.
    Oem1,
    /// For any country/region, the '+' key.
    OemPlus,
    /// For any country/region, the ',' key.
    OemComma,
    /// For any country/region, the '-' key.
    OemMinus,
    /// For any country/region, the '.' key.
    OemPeriod,
    /// For the US standard keyboard, the '/?' key.
    Oem2,
    /// For the US standard keyboard, the '`~' key.
    Oem3,
    /// For the US standard keyboard, the '[{' key.
    Oem4,
    /// For the US standard keyboard, the '\\|' key.
    Oem5,
    /// For the US standard keyboard, the ']}' key.
    Oem6,
    /// For the US standard keyboard, the quote key.
    Oem7,
    /// Varies by keyboard.
    Oem8,
}

/// The key that `VirtualKey::OsCtrl` stands for on the host platform.
///
/// The platform layer of this crate is the Windows one, whose primary
/// modifier is `Ctrl`; a macOS build sets this to `VirtualKey::Cmd`.
pub const OS_CTRL: VirtualKey = VirtualKey::Ctrl;

/// The left and right keys of a generic modifier.
pub open spec fn split_of(k: VirtualKey) -> Option<(VirtualKey, VirtualKey)> {
    match k {
        VirtualKey::Ctrl => Some((VirtualKey::LeftCtrl, VirtualKey::RightCtrl)),
        VirtualKey::Shift => Some((VirtualKey::LeftShift, VirtualKey::RightShift)),
        VirtualKey::Alt => Some((VirtualKey::LeftAlt, VirtualKey::RightAlt)),
        _ => None,
    }
}

/// The generic modifier that a key belongs to.
pub open spec fn general_mod_of(k: VirtualKey) -> Option<VirtualKey> {
    match k {
        VirtualKey::Ctrl | VirtualKey::LeftCtrl | VirtualKey::RightCtrl => Some(VirtualKey::Ctrl),
        VirtualKey::Cmd => Some(VirtualKey::Cmd),
        VirtualKey::OsCtrl => Some(OS_CTRL),
        VirtualKey::Shift | VirtualKey::LeftShift | VirtualKey::RightShift => Some(VirtualKey::Shift),
        VirtualKey::Alt | VirtualKey::LeftAlt | VirtualKey::RightAlt => Some(VirtualKey::Alt),
        _ => None,
    }
}

/// A key with `OsCtrl` replaced by the key it stands for.
pub open spec fn normalized_key(k: VirtualKey) -> VirtualKey {
    if k == VirtualKey::OsCtrl {
        OS_CTRL
    } else {
        k
    }
}

/// The bit of `KeyMods` that stands for a generic modifier.
pub open spec fn mod_bit(g: VirtualKey) -> u32 {
    match g {
        VirtualKey::Ctrl => CTRL_BIT,
        VirtualKey::Cmd => CMD_BIT,
        VirtualKey::Shift => SHIFT_BIT,
        VirtualKey::Alt => ALT_BIT,
        _ => 0,
    }
}

/// The bit of a key's modifier family, if it has one.
pub open spec fn key_mods_of(k: VirtualKey) -> Option<u32> {
    match general_mod_of(k) {
        Some(g) => Some(mod_bit(g)),
        None => None,
    }
}

impl VirtualKey {
    /// Whether this key is `Ctrl`, `Shift` or `Alt`, which split into a left
    /// and a right key, or `OsCtrl`, which stands for one of them.
    pub fn is_general_mod(&self) -> (r: bool)
        ensures
            r == split_of(normalized_key(*self)).is_some(),
    {
        self.normalized().split_general_mod().is_some()
    }

    /// Splits `Ctrl`, `Shift` or `Alt` into its left and right keys.
    pub fn split_general_mod(&self) -> (r: Option<(VirtualKey, VirtualKey)>)
        ensures
            r == split_of(*self),
    {
        match self {
            VirtualKey::Ctrl => Some((VirtualKey::LeftCtrl, VirtualKey::RightCtrl)),
            VirtualKey::Shift => Some((VirtualKey::LeftShift, VirtualKey::RightShift)),
            VirtualKey::Alt => Some((VirtualKey::LeftAlt, VirtualKey::RightAlt)),
            _ => None,
        }
    }

    /// The generic modifier that this key belongs to, or `None` for a key
    /// that is not a modifier.
    pub fn as_general_mod(&self) -> (r: Option<VirtualKey>)
        ensures
            r == general_mod_of(*self),
    {
        match self {
            VirtualKey::Ctrl | VirtualKey::LeftCtrl | VirtualKey::RightCtrl => Some(VirtualKey::Ctrl),
            VirtualKey::Cmd => Some(VirtualKey::Cmd),
            VirtualKey::OsCtrl => Some(OS_CTRL),
            VirtualKey::Shift | VirtualKey::LeftShift | VirtualKey::RightShift => Some(
                VirtualKey::Shift,
            ),
            VirtualKey::Alt | VirtualKey::LeftAlt | VirtualKey::RightAlt => Some(VirtualKey::Alt),
            _ => None,
        }
    }

    /// `OsCtrl` for a key of the family that `OsCtrl` stands for on this
    /// platform, `None` for any other key.
    pub fn as_os_ctrl(&self) -> (r: Option<VirtualKey>)
        ensures
            r == (if general_mod_of(*self) == Some(OS_CTRL) {
                Some(VirtualKey::OsCtrl)
            } else {
                None
            }),
    {
        match self.as_general_mod() {
            Some(g) => {
                if g == OS_CTRL {
                    Some(VirtualKey::OsCtrl)
                } else {
                    None
                }
            },
            None => None,
        }
    }

    /// Replaces `OsCtrl` by the key it stands for on this platform; every
    /// other key is returned unchanged.
    pub fn normalized(&self) -> (r: VirtualKey)
        ensures
            r == normalized_key(*self),
    {
        match self {
            VirtualKey::OsCtrl => OS_CTRL,
            _ => *self,
        }
    }

    /// The single-bit `KeyMods` of this key's modifier family, or `None` for a
    /// key that is not a modifier.
    pub fn as_key_mods(&self) -> (r: Option<KeyMods>)
        ensures
            (match r {
                Some(m) => Some(m@),
                None => None,
            }) == key_mods_of(*self),
    {
        match self.as_general_mod() {
            Some(VirtualKey::Ctrl) => Some(KeyMods::ctrl()),
            Some(VirtualKey::Cmd) => Some(KeyMods::cmd()),
            Some(VirtualKey::Shift) => Some(KeyMods::shift()),
            Some(VirtualKey::Alt) => Some(KeyMods::alt()),
            _ => None,
        }
    }
}

/// Each half of a split modifier belongs to the modifier it was split from.
pub proof fn lemma_split_halves_generalize(k: VirtualKey)
    ensures
        split_of(k) matches Some((l, r)) ==> general_mod_of(l) == Some(k) && general_mod_of(r)
            == Some(k),
{
}

/// `OsCtrl` normalizes to the platform's primary modifier, which normalizes to
/// itself; every other key is left as it is.
pub proof fn lemma_normalized_os_ctrl(k: VirtualKey)
    ensures
        normalized_key(VirtualKey::OsCtrl) == OS_CTRL,
        normalized_key(normalized_key(k)) == normalized_key(k),
        k != VirtualKey::OsCtrl ==> normalized_key(k) == k,
        OS_CTRL == VirtualKey::Ctrl || OS_CTRL == VirtualKey::Cmd,
{
}

} // verus!
