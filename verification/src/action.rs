//! What a key does: the part of the keyboard's actions that sticky keys look into.

use vstd::prelude::*;

use crate::config::StickyKeyShape;
use crate::modifier::ModifierCombination;

verus! {

/// A key of the HID keyboard page, by its usage number.
#[derive(Clone, Copy, Debug, PartialEq, Eq, Structural)]
pub struct HidKeyCode {
    pub usage: u8,
}

/// The usage numbers of the modifier keys, from left control to right GUI.
pub open spec fn is_modifier_usage(usage: u8) -> bool {
    0xE0 <= usage <= 0xE7
}

/// Calls `rmk_types::keycode::HidKeyCode::is_modifier` on the key of a usage number. The result
/// says whether that key lies from left control (0xE0) to right GUI (0xE7); a number without a key
/// stands for "no key", which is none of them.
#[verifier::external_body]
fn usage_is_modifier(usage: u8) -> (modifier: bool)
    ensures
        modifier == is_modifier_usage(usage),
{
    rmk_types::keycode::HidKeyCode::from(usage).is_modifier()
}

impl HidKeyCode {
    /// Whether the key is one of the eight modifier keys.
    pub fn is_modifier(self) -> (modifier: bool)
        ensures
            modifier == is_modifier_usage(self.usage),
    {
        usage_is_modifier(self.usage)
    }
}

/// The code that a plain key action sends.
#[derive(Clone, Copy, Debug, PartialEq, Eq, Structural)]
pub enum KeyCode {
    /// A key of the HID keyboard page.
    Hid(HidKeyCode),
    /// A consumer or system control key.
    Other,
}

/// An action of a key.
#[derive(Clone, Copy, Debug, PartialEq, Eq, Structural)]
pub enum Action {
    /// Presses a key.
    Key(KeyCode),
    /// Holds modifiers.
    Modifier(ModifierCombination),
    /// Presses a key while modifiers are held.
    KeyWithModifier(HidKeyCode, ModifierCombination),
    /// Activates a layer.
    LayerOn(u8),
    /// Any action that sticky keys neither hold nor look into.
    Other,
}

impl Action {
    /// The kind of sticky key that holds the action, if one does.
    pub open spec fn shape(self) -> Option<StickyKeyShape> {
        match self {
            Action::Modifier(_) => Some(StickyKeyShape::PureMod),
            Action::LayerOn(_) => Some(StickyKeyShape::Layer),
            Action::KeyWithModifier(_, _) => Some(StickyKeyShape::TapKey),
            _ => None,
        }
    }

    /// Whether the action leaves an active tap key alone: only modifiers do.
    pub open spec fn preserves_tap_key(self) -> bool {
        match self {
            Action::Modifier(_) => true,
            Action::Key(KeyCode::Hid(key)) => is_modifier_usage(key.usage),
            _ => false,
        }
    }
}

} // verus!
