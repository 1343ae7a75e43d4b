//! Key events and where they come from.

use vstd::prelude::*;

verus! {

/// Where a key event comes from.
#[derive(Clone, Copy, Debug, PartialEq, Eq, Structural)]
pub enum KeyboardEventPos {
    /// A key of the matrix.
    Key { col: u8, row: u8 },
    /// A direction of a rotary encoder.
    RotaryEncoder { id: u8, direction: u8 },
}

impl KeyboardEventPos {
    /// The position of a matrix key.
    pub fn key_pos(col: u8, row: u8) -> (pos: KeyboardEventPos)
        ensures
            pos == (KeyboardEventPos::Key { col, row }),
    {
        KeyboardEventPos::Key { col, row }
    }
}

/// A key going down or up.
#[derive(Clone, Copy, Debug, PartialEq, Eq, Structural)]
pub struct KeyboardEvent {
    pub pressed: bool,
    pub pos: KeyboardEventPos,
}

} // verus!
