use vstd::prelude::*;

verus! {

/// Whether the characters on the display are shown.
#[derive(Clone, Copy, PartialEq, Eq, Structural, Debug)]
pub enum Display {
    On,
    Off,
}

/// Whether the cursor is drawn.
#[derive(Clone, Copy, PartialEq, Eq, Structural, Debug)]
pub enum Cursor {
    Visible,
    Invisible,
}

/// Whether the cursor position blinks.
#[derive(Clone, Copy, PartialEq, Eq, Structural, Debug)]
pub enum CursorBlink {
    On,
    Off,
}

/// The chip's display-control register: display on/off, cursor drawn or not,
/// cursor blink on/off. The whole structure is encoded into a single command
/// byte and re-sent on every change.
#[derive(Clone, Copy, PartialEq, Eq, Structural, Debug)]
pub struct DisplayMode {
    pub display: Display,
    pub cursor_visibility: Cursor,
    pub cursor_blink: CursorBlink,
}

impl DisplayMode {
    /// The "display control" command byte: bit 3 marks the command, bit 2 the
    /// display, bit 1 the cursor, bit 0 the blink flag.
    pub open spec fn spec_as_byte(&self) -> u8 {
        0b0000_1000u8
        | (if self.display == Display::On { 0b0000_0100u8 } else { 0u8 })
        | (if self.cursor_visibility == Cursor::Visible { 0b0000_0010u8 } else { 0u8 })
        | (if self.cursor_blink == CursorBlink::On { 0b0000_0001u8 } else { 0u8 })
    }

    /// Encode the whole display-mode configuration as one command byte.
    #[verifier::when_used_as_spec(spec_as_byte)]
    pub fn as_byte(&self) -> (r: u8)
        ensures
            r == self.spec_as_byte(),
    {
        let display_bits: u8 = match self.display {
            Display::On => 0b0000_0100,
            Display::Off => 0b0000_0000,
        };
        let cursor_bits: u8 = match self.cursor_visibility {
            Cursor::Visible => 0b0000_0010,
            Cursor::Invisible => 0b0000_0000,
        };
        let blink_bits: u8 = match self.cursor_blink {
            CursorBlink::On => 0b0000_0001,
            CursorBlink::Off => 0b0000_0000,
        };
        0b0000_1000 | display_bits | cursor_bits | blink_bits
    }
}

impl Default for DisplayMode {
    /// The display is on with a visible, non-blinking cursor, matching the
    /// state the initialization sequence leaves the chip in.
    fn default() -> (r: Self)
        ensures
            r.display == Display::On,
            r.cursor_visibility == Cursor::Visible,
            r.cursor_blink == CursorBlink::Off,
    {
        DisplayMode {
            display: Display::On,
            cursor_visibility: Cursor::Visible,
            cursor_blink: CursorBlink::Off,
        }
    }
}

} // verus!
