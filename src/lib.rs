//! Maps raw keyboard and mouse events onto logical input identifiers.
//!
//! Applications declare bindings (`InputMap`) from logical ids to keys, mouse
//! axes and modifier sets. An `InputHandler` normalizes them into a dispatch
//! table and says, for each raw event, which id it goes to and how the
//! callback of that id reads it.
pub mod action;
pub mod axis;
pub mod decode;
pub mod error;
pub mod handler;
pub mod input;
pub mod key;
pub mod key_mods;

pub use action::Action;
pub use axis::{Axis, AxisId, UNIT_SCALE};
pub use error::Error;
pub use handler::InputHandler;
pub use input::{Input, InputEvent, InputId, InputKind, InputMap, InputVariants};
pub use key::{VirtualKey, OS_CTRL};
pub use key_mods::{KeyMods, KeyModsError};
