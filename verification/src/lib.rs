//! A driver for the HD44780 character-LCD controller, verified with Verus.
//!
//! Every operation is specified by the exact sequence of pin-level events
//! — enable pulses and delays — that it makes its bus perform: which
//! command byte each operation sends, how a byte is split into two nibble
//! transactions on a four-line bus, the fixed power-on initialization
//! sequences with their mandated delays, and how the first pin failure
//! cuts an operation short with nothing rolled back. A bus records its
//! events in order; a hardware back end can then drive real output pins
//! from the record.

use vstd::prelude::*;
use vstd::string::StringSliceAdditionalSpecFns;

pub mod bus;
pub mod display_mode;
pub mod entry_mode;
pub mod error;

use crate::bus::{DataBus, EightBitBus, Event, FourBitBus, partial_write};
use crate::entry_mode::CursorMode;
use crate::entry_mode::EntryMode;
use crate::error::Error;

verus! {

/// Microseconds the chip needs to settle after an ordinary command or a
/// data byte.
pub const SETTLE_WAIT_US: u64 = 100;

/// Microseconds to wait for the chip to power up before initialization.
pub const POWER_ON_WAIT_US: u64 = 15_000;

/// Microseconds the chip needs after the first function-set command of an
/// initialization sequence.
pub const FUNCTION_SET_WAIT_US: u64 = 5_000;

/// The events one command send appends to the bus history: the pulses that
/// latch `byte` into the command register, then a wait of `wait_us`.
pub open spec fn command_wait_events<B: DataBus>(byte: u8, wait_us: u64) -> Seq<Event> {
    B::write_events(byte, false).push(Event::DelayUs(wait_us))
}

/// The events one ordinary command send appends to the bus history: the
/// pulses that latch `byte` into the command register, then the settle
/// delay.
pub open spec fn command_events<B: DataBus>(byte: u8) -> Seq<Event> {
    command_wait_events::<B>(byte, SETTLE_WAIT_US)
}

/// The events one data byte appends to the bus history: the pulses that
/// latch `byte` into the data register, then the settle delay.
pub open spec fn data_byte_events<B: DataBus>(byte: u8) -> Seq<Event> {
    B::write_events(byte, true).push(Event::DelayUs(SETTLE_WAIT_US))
}

/// The events a whole transfer to the data register appends: each byte's
/// pulses and settle delay, strictly in input order.
pub open spec fn data_events<B: DataBus>(bytes: Seq<u8>) -> Seq<Event>
    decreases bytes.len(),
{
    if bytes.len() == 0 {
        Seq::empty()
    } else {
        data_byte_events::<B>(bytes[0]) + data_events::<B>(bytes.drop_first())
    }
}

/// The command byte that moves the cursor to `position`: the set-address
/// opcode bit over the position's low seven bits; the top bit of the
/// position is dropped.
pub open spec fn cursor_pos_command(position: u8) -> u8 {
    0b1000_0000u8 | (position & 0b0111_1111u8)
}

/// The set-DDRAM-address command ignores the top bit of the requested
/// position: masking it changes nothing, the low seven bits pass through
/// unchanged, and the opcode bit is always set.
pub proof fn lemma_cursor_pos_masks_top_bit(p: u8)
    by (bit_vector)
    ensures
        cursor_pos_command(p) == cursor_pos_command(p & 0b0111_1111),
        cursor_pos_command(p) & 0b0111_1111 == p & 0b0111_1111,
        cursor_pos_command(p) >> 7 == 1,
{
}

/// The full event sequence of the 8-bit power-on initialization: the
/// power-on wait, then six commands — function set (twice), display
/// control, clear, the fixed entry command, and the stored entry mode —
/// each followed by its mandated delay.
pub open spec fn init_8bit_events<B: DataBus>(entry: u8) -> Seq<Event> {
    seq![Event::DelayUs(POWER_ON_WAIT_US)]
    + command_wait_events::<B>(0b0011_0000, FUNCTION_SET_WAIT_US)
    + command_events::<B>(0b0011_1000)
    + command_events::<B>(0b0000_1110)
    + command_events::<B>(0b0000_0001)
    + command_events::<B>(0b0000_0111)
    + command_events::<B>(entry)
}

/// The full event sequence of the 4-bit power-on initialization: the
/// power-on wait, then seven commands — the switch to 4-bit mode, the
/// second mode byte, function set, display control, clear, the stored
/// entry mode, and the home address — each followed by its mandated delay.
pub open spec fn init_4bit_events<B: DataBus>(entry: u8) -> Seq<Event> {
    seq![Event::DelayUs(POWER_ON_WAIT_US)]
    + command_wait_events::<B>(0x33, FUNCTION_SET_WAIT_US)
    + command_events::<B>(0x32)
    + command_events::<B>(0x28)
    + command_events::<B>(0x0E)
    + command_events::<B>(0x01)
    + command_events::<B>(entry)
    + command_events::<B>(0x80)
}

/// The bus history grew from `pre` toward `pre + goal` but stopped strictly
/// short of completing it: an operation was aborted by a pin failure.
pub open spec fn stopped_short(pre: Seq<Event>, post: Seq<Event>, goal: Seq<Event>) -> bool {
    &&& pre.is_prefix_of(post)
    &&& post.is_prefix_of(pre + goal)
    &&& post.len() < pre.len() + goal.len()
}

/// Direction for shifting the cursor or the whole display.
#[derive(Clone, Copy, PartialEq, Eq, Structural, Debug)]
pub enum Direction {
    Left,
    Right,
}

pub use crate::display_mode::Cursor;
pub use crate::display_mode::CursorBlink;
pub use crate::display_mode::Display;
pub use crate::display_mode::DisplayMode;

/// A HD44780 character-LCD controller: one bus of either width, chosen at
/// construction, plus the stored entry-mode and display-mode configuration
/// that is re-encoded whole and re-sent on every change.
pub struct HD44780<B: DataBus> {
    pub bus: B,
    pub entry_mode: EntryMode,
    pub display_mode: DisplayMode,
}

proof fn lemma_prefix_trans(a: Seq<Event>, b: Seq<Event>, c: Seq<Event>)
    requires
        a.is_prefix_of(b),
        b.is_prefix_of(c),
    ensures
        a.is_prefix_of(c),
{
    assert(c.subrange(0, b.len() as int).subrange(0, a.len() as int)
        =~= c.subrange(0, a.len() as int));
}

proof fn lemma_append_prefix(a: Seq<Event>, b: Seq<Event>)
    ensures
        a.is_prefix_of(a + b),
{
    assert((a + b).subrange(0, a.len() as int) =~= a);
}

/// A write that failed after `done` earlier events had completed stops the
/// whole operation strictly short of `done + pulses + rest`.
proof fn lemma_partial_write_stops_short(
    pre: Seq<Event>,
    post: Seq<Event>,
    done: Seq<Event>,
    pulses: Seq<Event>,
    rest: Seq<Event>,
)
    requires
        partial_write(pre + done, post, pulses),
    ensures
        stopped_short(pre, post, done + pulses + rest),
{
    let k = choose|k: int| 0 <= k < pulses.len() && post == (pre + done) + pulses.take(k);
    assert(post =~= pre + (done + pulses.take(k)));
    lemma_append_prefix(pre, done + pulses.take(k));
    assert(post.is_prefix_of(pre + (done + pulses + rest))) by {
        assert((pre + (done + pulses + rest)).subrange(0, post.len() as int) =~= post);
    }
}

/// An operation that stopped short of `step`, after `done` earlier events
/// of it had completed, stops the whole surrounding operation strictly
/// short of `done + step + rest`.
proof fn lemma_stopped_short_within(
    pre: Seq<Event>,
    post: Seq<Event>,
    done: Seq<Event>,
    step: Seq<Event>,
    rest: Seq<Event>,
)
    requires
        stopped_short(pre + done, post, step),
    ensures
        stopped_short(pre, post, done + step + rest),
{
    lemma_append_prefix(pre, done);
    lemma_prefix_trans(pre, pre + done, post);
    assert((pre + done) + step =~= pre + (done + step));
    assert((pre + (done + step + rest)).subrange(0, (pre + (done + step)).len() as int)
        =~= pre + (done + step));
    lemma_prefix_trans(post, pre + (done + step), pre + (done + step + rest));
}

/// Transfers concatenate: sending `a` and then `b` to the data register
/// appends the same events as sending `a + b` at once.
pub proof fn lemma_data_events_concat<B: DataBus>(a: Seq<u8>, b: Seq<u8>)
    ensures
        data_events::<B>(a + b) == data_events::<B>(a) + data_events::<B>(b),
    decreases a.len(),
{
    if a.len() == 0 {
        assert(a + b =~= b);
        assert(Seq::<Event>::empty() + data_events::<B>(b) =~= data_events::<B>(b));
    } else {
        assert((a + b).drop_first() =~= a.drop_first() + b);
        lemma_data_events_concat::<B>(a.drop_first(), b);
        assert((a + b)[0] == a[0]);
        assert(data_byte_events::<B>(a[0])
            + (data_events::<B>(a.drop_first()) + data_events::<B>(b))
            =~= (data_byte_events::<B>(a[0]) + data_events::<B>(a.drop_first()))
                + data_events::<B>(b));
    }
}

impl<B: DataBus> HD44780<B> {
    /// Every pin-level action the controller's bus has performed.
    pub open spec fn history(self) -> Seq<Event> {
        self.bus.history()
    }

    /// Send one command byte and wait `wait_us` for the chip to process
    /// it.
    fn command_with_wait(&mut self, cmd: u8, wait_us: u64) -> (r: Result<(), Error>)
        ensures
            final(self).entry_mode == old(self).entry_mode,
            final(self).display_mode == old(self).display_mode,
            B::infallible() ==> r is Ok,
            r is Ok ==> final(self).history() == old(self).history()
                + command_wait_events::<B>(cmd, wait_us),
            r is Err ==> stopped_short(
                old(self).history(),
                final(self).history(),
                command_wait_events::<B>(cmd, wait_us),
            ),
    {
        match self.bus.write(cmd, false) {
            Ok(()) => {
                self.bus.delay_us(wait_us);
                proof {
                    assert(self.history() =~= old(self).history()
                        + command_wait_events::<B>(cmd, wait_us));
                }
                Ok(())
            },
            Err(e) => {
                proof {
                    assert(old(self).history() + Seq::<Event>::empty() =~= old(self).history());
                    lemma_partial_write_stops_short(
                        old(self).history(),
                        self.history(),
                        Seq::<Event>::empty(),
                        B::write_events(cmd, false),
                        seq![Event::DelayUs(wait_us)],
                    );
                    assert(Seq::<Event>::empty() + B::write_events(cmd, false)
                        + seq![Event::DelayUs(wait_us)] =~= command_wait_events::<B>(cmd, wait_us));
                }
                Err(e)
            },
        }
    }

    /// Send one command byte and wait out the settle delay.
    fn write_command(&mut self, cmd: u8) -> (r: Result<(), Error>)
        ensures
            final(self).entry_mode == old(self).entry_mode,
            final(self).display_mode == old(self).display_mode,
            B::infallible() ==> r is Ok,
            r is Ok ==> final(self).history() == old(self).history()
                + command_events::<B>(cmd),
            r is Err ==> stopped_short(
                old(self).history(),
                final(self).history(),
                command_events::<B>(cmd),
            ),
    {
        self.command_with_wait(cmd, SETTLE_WAIT_US)
    }

    /// Clear the entire display and home the cursor.
    pub fn clear(&mut self) -> (r: Result<(), Error>)
        ensures
            final(self).entry_mode == old(self).entry_mode,
            final(self).display_mode == old(self).display_mode,
            B::infallible() ==> r is Ok,
            r is Ok ==> final(self).history() == old(self).history()
                + command_events::<B>(0b0000_0001),
            r is Err ==> stopped_short(
                old(self).history(),
                final(self).history(),
                command_events::<B>(0b0000_0001),
            ),
    {
        self.write_command(0b0000_0001)
    }

    /// Store a whole display-mode configuration and send its encoding as
    /// one command.
    pub fn set_display_mode(&mut self, display_mode: DisplayMode) -> (r: Result<(), Error>)
        ensures
            final(self).entry_mode == old(self).entry_mode,
            final(self).display_mode == display_mode,
            B::infallible() ==> r is Ok,
            r is Ok ==> final(self).history() == old(self).history()
                + command_events::<B>(display_mode.as_byte()),
            r is Err ==> stopped_short(
                old(self).history(),
                final(self).history(),
                command_events::<B>(display_mode.as_byte()),
            ),
    {
        self.display_mode = display_mode;
        let cmd_byte = self.display_mode.as_byte();
        self.write_command(cmd_byte)
    }

    /// Turn autoscroll on or off; the whole entry-mode byte, with all
    /// stored fields, is re-sent.
    pub fn set_autoscroll(&mut self, enabled: bool) -> (r: Result<(), Error>)
        ensures
            final(self).entry_mode.autoscroll == enabled,
            final(self).entry_mode.cursor_mode == old(self).entry_mode.cursor_mode,
            final(self).display_mode == old(self).display_mode,
            B::infallible() ==> r is Ok,
            r is Ok ==> final(self).history() == old(self).history()
                + command_events::<B>(final(self).entry_mode.as_byte()),
            r is Err ==> stopped_short(
                old(self).history(),
                final(self).history(),
                command_events::<B>(final(self).entry_mode.as_byte()),
            ),
    {
        self.entry_mode.autoscroll = enabled;
        let cmd = self.entry_mode.as_byte();
        self.write_command(cmd)
    }

    /// Show or hide the cursor; the whole display-mode byte, with all
    /// stored fields, is re-sent.
    pub fn set_cursor_visibility(&mut self, visibility: Cursor) -> (r: Result<(), Error>)
        ensures
            final(self).display_mode.cursor_visibility == visibility,
            final(self).display_mode.display == old(self).display_mode.display,
            final(self).display_mode.cursor_blink == old(self).display_mode.cursor_blink,
            final(self).entry_mode == old(self).entry_mode,
            B::infallible() ==> r is Ok,
            r is Ok ==> final(self).history() == old(self).history()
                + command_events::<B>(final(self).display_mode.as_byte()),
            r is Err ==> stopped_short(
                old(self).history(),
                final(self).history(),
                command_events::<B>(final(self).display_mode.as_byte()),
            ),
    {
        self.display_mode.cursor_visibility = visibility;
        let cmd = self.display_mode.as_byte();
        self.write_command(cmd)
    }

    /// Turn the display on or off; the whole display-mode byte, with all
    /// stored fields, is re-sent.
    pub fn set_display(&mut self, display: Display) -> (r: Result<(), Error>)
        ensures
            final(self).display_mode.display == display,
            final(self).display_mode.cursor_visibility
                == old(self).display_mode.cursor_visibility,
            final(self).display_mode.cursor_blink == old(self).display_mode.cursor_blink,
            final(self).entry_mode == old(self).entry_mode,
            B::infallible() ==> r is Ok,
            r is Ok ==> final(self).history() == old(self).history()
                + command_events::<B>(final(self).display_mode.as_byte()),
            r is Err ==> stopped_short(
                old(self).history(),
                final(self).history(),
                command_events::<B>(final(self).display_mode.as_byte()),
            ),
    {
        self.display_mode.display = display;
        let cmd = self.display_mode.as_byte();
        self.write_command(cmd)
    }

    /// Turn cursor blinking on or off; the whole display-mode byte, with
    /// all stored fields, is re-sent.
    pub fn set_cursor_blink(&mut self, blink: CursorBlink) -> (r: Result<(), Error>)
        ensures
            final(self).display_mode.cursor_blink == blink,
            final(self).display_mode.display == old(self).display_mode.display,
            final(self).display_mode.cursor_visibility
                == old(self).display_mode.cursor_visibility,
            final(self).entry_mode == old(self).entry_mode,
            B::infallible() ==> r is Ok,
            r is Ok ==> final(self).history() == old(self).history()
                + command_events::<B>(final(self).display_mode.as_byte()),
            r is Err ==> stopped_short(
                old(self).history(),
                final(self).history(),
                command_events::<B>(final(self).display_mode.as_byte()),
            ),
    {
        self.display_mode.cursor_blink = blink;
        let cmd = self.display_mode.as_byte();
        self.write_command(cmd)
    }

    /// Set which way the cursor advances after a write; the whole
    /// entry-mode byte, with all stored fields, is re-sent.
    pub fn set_cursor_mode(&mut self, mode: CursorMode) -> (r: Result<(), Error>)
        ensures
            final(self).entry_mode.cursor_mode == mode,
            final(self).entry_mode.autoscroll == old(self).entry_mode.autoscroll,
            final(self).display_mode == old(self).display_mode,
            B::infallible() ==> r is Ok,
            r is Ok ==> final(self).history() == old(self).history()
                + command_events::<B>(final(self).entry_mode.as_byte()),
            r is Err ==> stopped_short(
                old(self).history(),
                final(self).history(),
                command_events::<B>(final(self).entry_mode.as_byte()),
            ),
    {
        self.entry_mode.cursor_mode = mode;
        let cmd = self.entry_mode.as_byte();
        self.write_command(cmd)
    }

    /// Move the cursor to a DDRAM address. Only the low seven bits of
    /// `position` are used: the top bit is silently dropped, never an
    /// error, and the result is OR-ed with the set-address opcode bit.
    pub fn set_cursor_pos(&mut self, position: u8) -> (r: Result<(), Error>)
        ensures
            final(self).entry_mode == old(self).entry_mode,
            final(self).display_mode == old(self).display_mode,
            B::infallible() ==> r is Ok,
            r is Ok ==> final(self).history() == old(self).history()
                + command_events::<B>(cursor_pos_command(position)),
            r is Err ==> stopped_short(
                old(self).history(),
                final(self).history(),
                command_events::<B>(cursor_pos_command(position)),
            ),
    {
        let lower_7_bits = position & 0b0111_1111;
        self.write_command(0b1000_0000 | lower_7_bits)
    }

    /// Shift just the cursor one position left or right.
    pub fn shift_cursor(&mut self, dir: Direction) -> (r: Result<(), Error>)
        ensures
            final(self).entry_mode == old(self).entry_mode,
            final(self).display_mode == old(self).display_mode,
            B::infallible() ==> r is Ok,
            r is Ok ==> final(self).history() == old(self).history()
                + command_events::<B>(
                    if dir == Direction::Right { 0b0001_0100 } else { 0b0001_0000 },
                ),
            r is Err ==> stopped_short(
                old(self).history(),
                final(self).history(),
                command_events::<B>(
                    if dir == Direction::Right { 0b0001_0100 } else { 0b0001_0000 },
                ),
            ),
    {
        let cmd: u8 = match dir {
            Direction::Left => 0b0001_0000,
            Direction::Right => 0b0001_0100,
        };
        self.write_command(cmd)
    }

    /// Shift the entire display one position left or right.
    pub fn shift_display(&mut self, dir: Direction) -> (r: Result<(), Error>)
        ensures
            final(self).entry_mode == old(self).entry_mode,
            final(self).display_mode == old(self).display_mode,
            B::infallible() ==> r is Ok,
            r is Ok ==> final(self).history() == old(self).history()
                + command_events::<B>(
                    if dir == Direction::Right { 0b0001_1100 } else { 0b0001_1000 },
                ),
            r is Err ==> stopped_short(
                old(self).history(),
                final(self).history(),
                command_events::<B>(
                    if dir == Direction::Right { 0b0001_1100 } else { 0b0001_1000 },
                ),
            ),
    {
        let cmd: u8 = match dir {
            Direction::Left => 0b0001_1000,
            Direction::Right => 0b0001_1100,
        };
        self.write_command(cmd)
    }

    /// Send one byte to the data register and wait out the settle delay.
    pub fn write_byte(&mut self, data: u8) -> (r: Result<(), Error>)
        ensures
            final(self).entry_mode == old(self).entry_mode,
            final(self).display_mode == old(self).display_mode,
            B::infallible() ==> r is Ok,
            r is Ok ==> final(self).history() == old(self).history()
                + data_byte_events::<B>(data),
            r is Err ==> stopped_short(
                old(self).history(),
                final(self).history(),
                data_byte_events::<B>(data),
            ),
    {
        match self.bus.write(data, true) {
            Ok(()) => {
                self.bus.delay_us(SETTLE_WAIT_US);
                proof {
                    assert(self.history() =~= old(self).history() + data_byte_events::<B>(data));
                }
                Ok(())
            },
            Err(e) => {
                proof {
                    assert(old(self).history() + Seq::<Event>::empty() =~= old(self).history());
                    lemma_partial_write_stops_short(
                        old(self).history(),
                        self.history(),
                        Seq::<Event>::empty(),
                        B::write_events(data, true),
                        seq![Event::DelayUs(SETTLE_WAIT_US)],
                    );
                    assert(Seq::<Event>::empty() + B::write_events(data, true)
                        + seq![Event::DelayUs(SETTLE_WAIT_US)] =~= data_byte_events::<B>(data));
                }
                Err(e)
            },
        }
    }

    /// Run the datasheet's 8-bit power-on sequence: the power-on wait,
    /// then the fixed commands, each with its mandated delay, ending with
    /// the stored entry mode. Reordering or shortening any step is not
    /// allowed; a pin failure aborts the sequence where it struck.
    fn init_8bit(&mut self) -> (r: Result<(), Error>)
        ensures
            final(self).entry_mode == old(self).entry_mode,
            final(self).display_mode == old(self).display_mode,
            B::infallible() ==> r is Ok,
            r is Ok ==> final(self).history() == old(self).history()
                + init_8bit_events::<B>(old(self).entry_mode.as_byte()),
            r is Err ==> stopped_short(
                old(self).history(),
                final(self).history(),
                init_8bit_events::<B>(old(self).entry_mode.as_byte()),
            ),
    {
        let ghost e: u8 = old(self).entry_mode.spec_as_byte();
        let ghost d0: Seq<Event> = seq![Event::DelayUs(POWER_ON_WAIT_US)];
        let ghost c1: Seq<Event> = command_wait_events::<B>(0b0011_0000, FUNCTION_SET_WAIT_US);
        let ghost c2: Seq<Event> = command_events::<B>(0b0011_1000);
        let ghost c3: Seq<Event> = command_events::<B>(0b0000_1110);
        let ghost c4: Seq<Event> = command_events::<B>(0b0000_0001);
        let ghost c5: Seq<Event> = command_events::<B>(0b0000_0111);
        let ghost c6: Seq<Event> = command_events::<B>(e);
        let ghost goal: Seq<Event> = init_8bit_events::<B>(e);

        let entry_byte = self.entry_mode.as_byte();

        // Wait for the chip to power up.
        self.bus.delay_us(POWER_ON_WAIT_US);
        proof {
            assert(self.history() =~= old(self).history() + d0);
        }
        // Put the chip in 8-bit mode.
        match self.command_with_wait(0b0011_0000, FUNCTION_SET_WAIT_US) {
            Ok(()) => {},
            Err(er) => {
                proof {
                    lemma_stopped_short_within(old(self).history(), self.history(), d0, c1,
                        c2 + c3 + c4 + c5 + c6);
                    assert(d0 + c1 + (c2 + c3 + c4 + c5 + c6) =~= goal);
                }
                return Err(er);
            },
        }
        proof {
            assert(self.history() =~= old(self).history() + (d0 + c1));
        }
        // 8-bit operation with the 5x7 character set.
        match self.write_command(0b0011_1000) {
            Ok(()) => {},
            Err(er) => {
                proof {
                    lemma_stopped_short_within(old(self).history(), self.history(), d0 + c1, c2,
                        c3 + c4 + c5 + c6);
                    assert(d0 + c1 + c2 + (c3 + c4 + c5 + c6) =~= goal);
                }
                return Err(er);
            },
        }
        proof {
            assert(self.history() =~= old(self).history() + (d0 + c1 + c2));
        }
        // Display on with a visible cursor.
        match self.write_command(0b0000_1110) {
            Ok(()) => {},
            Err(er) => {
                proof {
                    lemma_stopped_short_within(old(self).history(), self.history(),
                        d0 + c1 + c2, c3, c4 + c5 + c6);
                    assert(d0 + c1 + c2 + c3 + (c4 + c5 + c6) =~= goal);
                }
                return Err(er);
            },
        }
        proof {
            assert(self.history() =~= old(self).history() + (d0 + c1 + c2 + c3));
        }
        // Clear the display.
        match self.write_command(0b0000_0001) {
            Ok(()) => {},
            Err(er) => {
                proof {
                    lemma_stopped_short_within(old(self).history(), self.history(),
                        d0 + c1 + c2 + c3, c4, c5 + c6);
                    assert(d0 + c1 + c2 + c3 + c4 + (c5 + c6) =~= goal);
                }
                return Err(er);
            },
        }
        proof {
            assert(self.history() =~= old(self).history() + (d0 + c1 + c2 + c3 + c4));
        }
        // The fixed entry command of the power-on sequence.
        match self.write_command(0b0000_0111) {
            Ok(()) => {},
            Err(er) => {
                proof {
                    lemma_stopped_short_within(old(self).history(), self.history(),
                        d0 + c1 + c2 + c3 + c4, c5, c6);
                    assert(d0 + c1 + c2 + c3 + c4 + c5 + c6 =~= goal);
                }
                return Err(er);
            },
        }
        proof {
            assert(self.history() =~= old(self).history() + (d0 + c1 + c2 + c3 + c4 + c5));
        }
        // The stored entry mode.
        match self.write_command(entry_byte) {
            Ok(()) => {},
            Err(er) => {
                proof {
                    lemma_stopped_short_within(old(self).history(), self.history(),
                        d0 + c1 + c2 + c3 + c4 + c5, c6, Seq::<Event>::empty());
                    assert(d0 + c1 + c2 + c3 + c4 + c5 + c6 + Seq::<Event>::empty() =~= goal);
                }
                return Err(er);
            },
        }
        proof {
            assert(self.history() =~= old(self).history()
                + (d0 + c1 + c2 + c3 + c4 + c5 + c6));
            assert(d0 + c1 + c2 + c3 + c4 + c5 + c6 =~= goal);
        }
        Ok(())
    }

    /// Run the datasheet's 4-bit power-on sequence: the power-on wait, the
    /// switch to 4-bit mode, then the fixed commands, each with its
    /// mandated delay, with the stored entry mode before the final home
    /// address. Reordering or shortening any step is not allowed; a pin
    /// failure aborts the sequence where it struck.
    fn init_4bit(&mut self) -> (r: Result<(), Error>)
        ensures
            final(self).entry_mode == old(self).entry_mode,
            final(self).display_mode == old(self).display_mode,
            B::infallible() ==> r is Ok,
            r is Ok ==> final(self).history() == old(self).history()
                + init_4bit_events::<B>(old(self).entry_mode.as_byte()),
            r is Err ==> stopped_short(
                old(self).history(),
                final(self).history(),
                init_4bit_events::<B>(old(self).entry_mode.as_byte()),
            ),
    {
        let ghost e: u8 = old(self).entry_mode.spec_as_byte();
        let ghost d0: Seq<Event> = seq![Event::DelayUs(POWER_ON_WAIT_US)];
        let ghost c1: Seq<Event> = command_wait_events::<B>(0x33, FUNCTION_SET_WAIT_US);
        let ghost c2: Seq<Event> = command_events::<B>(0x32);
        let ghost c3: Seq<Event> = command_events::<B>(0x28);
        let ghost c4: Seq<Event> = command_events::<B>(0x0E);
        let ghost c5: Seq<Event> = command_events::<B>(0x01);
        let ghost c6: Seq<Event> = command_events::<B>(e);
        let ghost c7: Seq<Event> = command_events::<B>(0x80);
        let ghost goal: Seq<Event> = init_4bit_events::<B>(e);

        let entry_byte = self.entry_mode.as_byte();

        // Wait for the chip to power up.
        self.bus.delay_us(POWER_ON_WAIT_US);
        proof {
            assert(self.history() =~= old(self).history() + d0);
        }
        // Switch the chip to 4-bit mode.
        match self.command_with_wait(0x33, FUNCTION_SET_WAIT_US) {
            Ok(()) => {},
            Err(er) => {
                proof {
                    lemma_stopped_short_within(old(self).history(), self.history(), d0, c1,
                        c2 + c3 + c4 + c5 + c6 + c7);
                    assert(d0 + c1 + (c2 + c3 + c4 + c5 + c6 + c7) =~= goal);
                }
                return Err(er);
            },
        }
        proof {
            assert(self.history() =~= old(self).history() + (d0 + c1));
        }
        // 4-bit operation with the 5x7 character set.
        match self.write_command(0x32) {
            Ok(()) => {},
            Err(er) => {
                proof {
                    lemma_stopped_short_within(old(self).history(), self.history(), d0 + c1, c2,
                        c3 + c4 + c5 + c6 + c7);
                    assert(d0 + c1 + c2 + (c3 + c4 + c5 + c6 + c7) =~= goal);
                }
                return Err(er);
            },
        }
        proof {
            assert(self.history() =~= old(self).history() + (d0 + c1 + c2));
        }
        // Two-line function set for the four-line bus.
        match self.write_command(0x28) {
            Ok(()) => {},
            Err(er) => {
                proof {
                    lemma_stopped_short_within(old(self).history(), self.history(),
                        d0 + c1 + c2, c3, c4 + c5 + c6 + c7);
                    assert(d0 + c1 + c2 + c3 + (c4 + c5 + c6 + c7) =~= goal);
                }
                return Err(er);
            },
        }
        proof {
            assert(self.history() =~= old(self).history() + (d0 + c1 + c2 + c3));
        }
        // Display on with a visible cursor.
        match self.write_command(0x0E) {
            Ok(()) => {},
            Err(er) => {
                proof {
                    lemma_stopped_short_within(old(self).history(), self.history(),
                        d0 + c1 + c2 + c3, c4, c5 + c6 + c7);
                    assert(d0 + c1 + c2 + c3 + c4 + (c5 + c6 + c7) =~= goal);
                }
                return Err(er);
            },
        }
        proof {
            assert(self.history() =~= old(self).history() + (d0 + c1 + c2 + c3 + c4));
        }
        // Clear the display.
        match self.write_command(0x01) {
            Ok(()) => {},
            Err(er) => {
                proof {
                    lemma_stopped_short_within(old(self).history(), self.history(),
                        d0 + c1 + c2 + c3 + c4, c5, c6 + c7);
                    assert(d0 + c1 + c2 + c3 + c4 + c5 + (c6 + c7) =~= goal);
                }
                return Err(er);
            },
        }
        proof {
            assert(self.history() =~= old(self).history() + (d0 + c1 + c2 + c3 + c4 + c5));
        }
        // The stored entry mode.
        match self.write_command(entry_byte) {
            Ok(()) => {},
            Err(er) => {
                proof {
                    lemma_stopped_short_within(old(self).history(), self.history(),
                        d0 + c1 + c2 + c3 + c4 + c5, c6, c7);
                    assert(d0 + c1 + c2 + c3 + c4 + c5 + c6 + c7 =~= goal);
                }
                return Err(er);
            },
        }
        proof {
            assert(self.history() =~= old(self).history() + (d0 + c1 + c2 + c3 + c4 + c5 + c6));
        }
        // Home the cursor to the first address.
        match self.write_command(0x80) {
            Ok(()) => {},
            Err(er) => {
                proof {
                    lemma_stopped_short_within(old(self).history(), self.history(),
                        d0 + c1 + c2 + c3 + c4 + c5 + c6, c7, Seq::<Event>::empty());
                    assert(d0 + c1 + c2 + c3 + c4 + c5 + c6 + c7 + Seq::<Event>::empty()
                        =~= goal);
                }
                return Err(er);
            },
        }
        proof {
            assert(self.history() =~= old(self).history()
                + (d0 + c1 + c2 + c3 + c4 + c5 + c6 + c7));
            assert(d0 + c1 + c2 + c3 + c4 + c5 + c6 + c7 =~= goal);
        }
        Ok(())
    }

    /// Send a sequence of bytes to the data register, strictly in input
    /// order. The first pin failure stops the transfer at that byte: no
    /// later byte is sent, and the failure is returned.
    pub fn write_bytes(&mut self, string: &[u8]) -> (r: Result<(), Error>)
        ensures
            final(self).entry_mode == old(self).entry_mode,
            final(self).display_mode == old(self).display_mode,
            B::infallible() ==> r is Ok,
            r is Ok ==> final(self).history() == old(self).history()
                + data_events::<B>(string@),
            r is Err ==> stopped_short(
                old(self).history(),
                final(self).history(),
                data_events::<B>(string@),
            ),
    {
        let mut i: usize = 0;
        while i < string.len()
            invariant
                i <= string.len(),
                self.history() == old(self).history()
                    + data_events::<B>(string@.take(i as int)),
                self.entry_mode == old(self).entry_mode,
                self.display_mode == old(self).display_mode,
            decreases string.len() - i,
        {
            let b = string[i];
            let ghost done = data_events::<B>(string@.take(i as int));
            match self.write_byte(b) {
                Ok(()) => {},
                Err(e) => {
                    proof {
                        let rest = data_events::<B>(string@.skip(i as int + 1));
                        lemma_stopped_short_within(
                            old(self).history(),
                            self.history(),
                            done,
                            data_byte_events::<B>(b),
                            rest,
                        );
                        assert(string@.take(i as int) + string@.skip(i as int) =~= string@);
                        lemma_data_events_concat::<B>(
                            string@.take(i as int),
                            string@.skip(i as int),
                        );
                        assert(string@.skip(i as int)[0] == b);
                        assert(string@.skip(i as int).drop_first() =~= string@.skip(i as int + 1));
                        assert(done + data_byte_events::<B>(b) + rest
                            =~= data_events::<B>(string@));
                    }
                    return Err(e);
                },
            }
            i = i + 1;
            proof {
                assert(string@.take(i as int)
                    =~= string@.take(i as int - 1) + seq![string@[i as int - 1]]);
                lemma_data_events_concat::<B>(
                    string@.take(i as int - 1),
                    seq![string@[i as int - 1]],
                );
                assert(seq![string@[i as int - 1]].drop_first() =~= Seq::<u8>::empty());
                assert(data_events::<B>(Seq::<u8>::empty()) =~= Seq::<Event>::empty());
                assert(data_events::<B>(seq![string@[i as int - 1]])
                    == data_byte_events::<B>(b) + Seq::<Event>::empty());
                assert(data_byte_events::<B>(b) + Seq::<Event>::empty()
                    =~= data_byte_events::<B>(b));
                assert(self.history() =~= old(self).history()
                    + data_events::<B>(string@.take(i as int)));
            }
        }
        proof {
            assert(string@.take(string.len() as int) =~= string@);
        }
        Ok(())
    }

    /// Send every byte of the string's UTF-8 encoding to the data
    /// register, strictly in order, stopping at the first pin failure.
    pub fn write_str(&mut self, string: &str) -> (r: Result<(), Error>)
        ensures
            final(self).entry_mode == old(self).entry_mode,
            final(self).display_mode == old(self).display_mode,
            B::infallible() ==> r is Ok,
            r is Ok ==> final(self).history() == old(self).history()
                + data_events::<B>(string.spec_bytes()),
            r is Err ==> stopped_short(
                old(self).history(),
                final(self).history(),
                data_events::<B>(string.spec_bytes()),
            ),
    {
        self.write_bytes(string.as_bytes())
    }

    /// Send one character to the data register, narrowed to the low eight
    /// bits of its scalar value as the chip's character ROM expects.
    pub fn write_char(&mut self, data: char) -> (r: Result<(), Error>)
        ensures
            final(self).entry_mode == old(self).entry_mode,
            final(self).display_mode == old(self).display_mode,
            B::infallible() ==> r is Ok,
            r is Ok ==> final(self).history() == old(self).history()
                + data_byte_events::<B>(data as u8),
            r is Err ==> stopped_short(
                old(self).history(),
                final(self).history(),
                data_byte_events::<B>(data as u8),
            ),
    {
        self.write_byte(data as u8)
    }

    /// Return the cursor to the origin, unshifting the display, without
    /// clearing it.
    pub fn reset(&mut self) -> (r: Result<(), Error>)
        ensures
            final(self).entry_mode == old(self).entry_mode,
            final(self).display_mode == old(self).display_mode,
            B::infallible() ==> r is Ok,
            r is Ok ==> final(self).history() == old(self).history()
                + command_events::<B>(0b0000_0010),
            r is Err ==> stopped_short(
                old(self).history(),
                final(self).history(),
                command_events::<B>(0b0000_0010),
            ),
    {
        self.write_command(0b0000_0010)
    }
}

impl HD44780<EightBitBus> {
    /// Build a controller over an eight-line bus and run the full 8-bit
    /// power-on initialization before handing it back. The entry-mode and
    /// display-mode configuration start at their defaults, matching the
    /// state the sequence leaves the chip in.
    pub fn new_8bit(bus: EightBitBus) -> (r: Result<HD44780<EightBitBus>, Error>)
        ensures
            r is Ok,
            r->Ok_0.entry_mode.cursor_mode == CursorMode::Right,
            !r->Ok_0.entry_mode.autoscroll,
            r->Ok_0.entry_mode.as_byte() == 0b0000_0110,
            r->Ok_0.display_mode.display == Display::On,
            r->Ok_0.display_mode.cursor_visibility == Cursor::Visible,
            r->Ok_0.display_mode.cursor_blink == CursorBlink::Off,
            r->Ok_0.display_mode.as_byte() == 0b0000_1110,
            r->Ok_0.history() == bus.history()
                + init_8bit_events::<EightBitBus>(0b0000_0110),
    {
        let mut hd = HD44780 {
            bus,
            entry_mode: EntryMode::default(),
            display_mode: DisplayMode::default(),
        };
        proof {
            assert((0b0000_0100u8 | 0b0000_0010u8) | 0u8 == 0b0000_0110u8) by (bit_vector);
            assert(((0b0000_1000u8 | 0b0000_0100u8) | 0b0000_0010u8) | 0u8 == 0b0000_1110u8)
                by (bit_vector);
        }
        match hd.init_8bit() {
            Ok(()) => Ok(hd),
            Err(e) => Err(e),
        }
    }
}

impl HD44780<FourBitBus> {
    /// Build a controller over a four-line bus and run the full 4-bit
    /// power-on initialization, with its extra mode-switch command, before
    /// handing it back. The entry-mode and display-mode configuration
    /// start at their defaults, matching the state the sequence leaves the
    /// chip in.
    pub fn new_4bit(bus: FourBitBus) -> (r: Result<HD44780<FourBitBus>, Error>)
        ensures
            r is Ok,
            r->Ok_0.entry_mode.cursor_mode == CursorMode::Right,
            !r->Ok_0.entry_mode.autoscroll,
            r->Ok_0.entry_mode.as_byte() == 0b0000_0110,
            r->Ok_0.display_mode.display == Display::On,
            r->Ok_0.display_mode.cursor_visibility == Cursor::Visible,
            r->Ok_0.display_mode.cursor_blink == CursorBlink::Off,
            r->Ok_0.display_mode.as_byte() == 0b0000_1110,
            r->Ok_0.history() == bus.history()
                + init_4bit_events::<FourBitBus>(0b0000_0110),
    {
        let mut hd = HD44780 {
            bus,
            entry_mode: EntryMode::default(),
            display_mode: DisplayMode::default(),
        };
        proof {
            assert((0b0000_0100u8 | 0b0000_0010u8) | 0u8 == 0b0000_0110u8) by (bit_vector);
            assert(((0b0000_1000u8 | 0b0000_0100u8) | 0b0000_0010u8) | 0u8 == 0b0000_1110u8)
                by (bit_vector);
        }
        match hd.init_4bit() {
            Ok(()) => Ok(hd),
            Err(e) => Err(e),
        }
    }
}

} // verus!
