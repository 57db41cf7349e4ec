use vstd::prelude::*;

verus! {

/// Direction the cursor advances after a character is written.
#[derive(Clone, Copy, PartialEq, Eq, Structural, Debug)]
pub enum CursorMode {
    Left,
    Right,
}

/// The chip's entry-mode register: whether the display scrolls on write
/// (autoscroll) and which way the cursor advances. The whole structure is
/// encoded into a single command byte and re-sent on every change.
#[derive(Clone, Copy, PartialEq, Eq, Structural, Debug)]
pub struct EntryMode {
    pub cursor_mode: CursorMode,
    pub autoscroll: bool,
}

impl EntryMode {
    /// The "entry mode set" command byte: bit 2 marks the command, bit 1 the
    /// cursor direction (set = advance right), bit 0 the autoscroll flag.
    pub open spec fn spec_as_byte(&self) -> u8 {
        0b0000_0100u8
        | (if self.cursor_mode == CursorMode::Right { 0b0000_0010u8 } else { 0u8 })
        | (if self.autoscroll { 0b0000_0001u8 } else { 0u8 })
    }

    /// Encode the whole entry-mode configuration as one command byte.
    #[verifier::when_used_as_spec(spec_as_byte)]
    pub fn as_byte(&self) -> (r: u8)
        ensures
            r == self.spec_as_byte(),
    {
        let cursor_bits: u8 = match self.cursor_mode {
            CursorMode::Right => 0b0000_0010,
            CursorMode::Left => 0b0000_0000,
        };
        let autoscroll_bits: u8 = if self.autoscroll {
            0b0000_0001
        } else {
            0b0000_0000
        };
        0b0000_0100 | cursor_bits | autoscroll_bits
    }
}

impl Default for EntryMode {
    /// The cursor advances to the right and the display does not scroll.
    fn default() -> (r: Self)
        ensures
            r.cursor_mode == CursorMode::Right,
            !r.autoscroll,
    {
        EntryMode { cursor_mode: CursorMode::Right, autoscroll: false }
    }
}

} // verus!
