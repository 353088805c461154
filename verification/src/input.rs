//! The key events the library's state machines consume. The render loop
//! translates raw terminal events into these plain values.

use vstd::prelude::*;

verus! {

/// One key press, reduced to what the state machines dispatch on.
#[derive(Clone, Copy, PartialEq, Eq, Structural, Debug)]
pub enum Key {
    Enter,
    Esc,
    Tab,
    Backspace,
    Up,
    Down,
    Left,
    Right,
    Char(char),
}

} // verus!
