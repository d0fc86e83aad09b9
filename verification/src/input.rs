//! Input events that the keyboard and mouse drivers hand to the GUI.
use vstd::prelude::*;

verus! {

/// An event of the unified input queue.
#[derive(Clone, Copy, PartialEq, Eq, Structural, Debug)]
pub enum InputEvent {
    /// The pointer moved to `(x, y)`; `buttons` has bit 0 for left, 1 for
    /// right, 2 for middle.
    MouseMove { x: u16, y: u16, buttons: u8 },
    /// Button `button` (0 left, 1 right, 2 middle) went down at `(x, y)`.
    MouseDown { button: u8, x: u16, y: u16 },
    /// Button `button` went up at `(x, y)`.
    MouseUp { button: u8, x: u16, y: u16 },
    /// A key producing `ascii` was pressed.
    KeyPress { ascii: u8 },
}

} // verus!
