use vstd::prelude::*;

use crate::error::Error;

verus! {

/// One externally visible action of a bus, in the order the hardware sees
/// them. A `Latch` is one enable pulse: the register-select level and the
/// data-line levels that are stable while the pulse latches them into the
/// chip. A `DelayUs` is a pause of the given number of microseconds.
#[derive(Clone, Copy, PartialEq, Eq, Structural, Debug)]
pub enum Event {
    Latch { rs: bool, lines: u8 },
    DelayUs(u64),
}

/// The level of data line `i` while `lines` is presented: bit `i` of the
/// byte drives pin `i`.
pub open spec fn line_level(lines: u8, i: u8) -> bool {
    (lines >> i) & 1 == 1
}

/// A `write` that failed partway: some strict prefix of its enable pulses
/// latched before a pin refused, and nothing was rolled back.
pub open spec fn partial_write(pre: Seq<Event>, post: Seq<Event>, pulses: Seq<Event>) -> bool {
    exists|k: int| 0 <= k < pulses.len() && post == pre + pulses.take(k)
}

/// The capability the controller drives: latch a byte into the chip's
/// command or data register, and pause for datasheet-mandated delays.
/// `history` is the full record of pin-level actions, oldest first.
pub trait DataBus: Sized {
    /// Every pin-level action this bus has performed, oldest first.
    spec fn history(self) -> Seq<Event>;

    /// The enable pulses one successful `write` of `byte` appends: one pulse
    /// on an eight-line bus, two (high nibble, then low) on a four-line bus.
    spec fn write_events(byte: u8, data: bool) -> Seq<Event>;

    /// Whether this bus's pins can never fail. On an infallible bus every
    /// write owes success.
    spec fn infallible() -> bool;

    /// Latch `byte` into the data register (`data` true) or the command
    /// register (`data` false). On success the bus performed exactly the
    /// pulses of `write_events`; on a pin failure it stopped mid-byte with
    /// only a strict prefix of them latched.
    fn write(&mut self, byte: u8, data: bool) -> (r: Result<(), Error>)
        ensures
            Self::infallible() ==> r is Ok,
            r is Ok ==> final(self).history() == old(self).history()
                + Self::write_events(byte, data),
            r is Err ==> partial_write(
                old(self).history(),
                final(self).history(),
                Self::write_events(byte, data),
            ),
    ;

    /// Pause for `us` microseconds before the next action.
    fn delay_us(&mut self, us: u64)
        ensures
            final(self).history() == old(self).history().push(Event::DelayUs(us)),
    ;
}

/// A bus that owns eight data lines: each byte is latched in a single
/// transaction, bit `i` of the byte on line `i`.
pub struct EightBitBus {
    /// The pin-level actions performed so far, oldest first.
    pub issued: Vec<Event>,
}

impl EightBitBus {
    /// A freshly wired bus that has not driven its pins yet.
    pub fn new() -> (r: EightBitBus)
        ensures
            r.history() == Seq::<Event>::empty(),
    {
        let r = EightBitBus { issued: Vec::new() };
        proof {
            assert(r.history() =~= Seq::<Event>::empty());
        }
        r
    }
}

impl DataBus for EightBitBus {
    open spec fn history(self) -> Seq<Event> {
        self.issued@
    }

    open spec fn write_events(byte: u8, data: bool) -> Seq<Event> {
        seq![Event::Latch { rs: data, lines: byte }]
    }

    open spec fn infallible() -> bool {
        true
    }

    /// One transaction: register select carries the flag, all eight lines
    /// carry the byte, one enable pulse. Never fails.
    fn write(&mut self, byte: u8, data: bool) -> (r: Result<(), Error>)
        ensures
            r is Ok,
    {
        self.issued.push(Event::Latch { rs: data, lines: byte });
        proof {
            assert(self.history() =~= old(self).history()
                + Self::write_events(byte, data));
        }
        Ok(())
    }

    fn delay_us(&mut self, us: u64) {
        self.issued.push(Event::DelayUs(us));
    }
}

/// A bus that owns four data lines: each byte is latched in two
/// transactions, high nibble first, register select held constant across
/// both.
pub struct FourBitBus {
    /// The pin-level actions performed so far, oldest first.
    pub issued: Vec<Event>,
}

impl FourBitBus {
    /// A freshly wired bus that has not driven its pins yet.
    pub fn new() -> (r: FourBitBus)
        ensures
            r.history() == Seq::<Event>::empty(),
    {
        let r = FourBitBus { issued: Vec::new() };
        proof {
            assert(r.history() =~= Seq::<Event>::empty());
        }
        r
    }
}

impl DataBus for FourBitBus {
    open spec fn history(self) -> Seq<Event> {
        self.issued@
    }

    open spec fn write_events(byte: u8, data: bool) -> Seq<Event> {
        seq![
            Event::Latch { rs: data, lines: byte >> 4 },
            Event::Latch { rs: data, lines: byte & 0x0F },
        ]
    }

    open spec fn infallible() -> bool {
        true
    }

    /// Two transactions on the same four lines: the byte's high nibble,
    /// pulsed, then its low nibble, pulsed, with the register-select flag
    /// held across both. Never fails.
    fn write(&mut self, byte: u8, data: bool) -> (r: Result<(), Error>)
        ensures
            r is Ok,
    {
        self.issued.push(Event::Latch { rs: data, lines: byte >> 4 });
        self.issued.push(Event::Latch { rs: data, lines: byte & 0x0F });
        proof {
            assert(self.history() =~= old(self).history()
                + Self::write_events(byte, data));
        }
        Ok(())
    }

    fn delay_us(&mut self, us: u64) {
        self.issued.push(Event::DelayUs(us));
    }
}

/// The two nibble transactions of a four-line bus carry the byte bit for
/// bit: the high and low nibble reassemble to the byte, and each fits on
/// four lines.
pub proof fn lemma_four_bit_nibbles(byte: u8)
    by (bit_vector)
    ensures
        ((byte >> 4) << 4) | (byte & 0x0F) == byte,
        byte >> 4 < 16,
        byte & 0x0F < 16,
        forall|i: u8| i < 4 ==> line_level(byte >> 4, i) == line_level(byte, (i + 4) as u8),
        forall|i: u8| i < 4 ==> line_level(byte & 0x0F, i) == line_level(byte, i),
{
}

/// A bus that records like the eight-line one until a set number of writes
/// have succeeded, then reports a pin failure on every later write, with
/// that byte's pulse never latched. It exists to exercise the abort paths
/// of the controller.
pub struct FaultyBus {
    /// The pin-level actions performed so far, oldest first.
    pub issued: Vec<Event>,
    /// How many more writes succeed before the pin gives out.
    pub writes_left: usize,
}

impl DataBus for FaultyBus {
    open spec fn history(self) -> Seq<Event> {
        self.issued@
    }

    open spec fn write_events(byte: u8, data: bool) -> Seq<Event> {
        seq![Event::Latch { rs: data, lines: byte }]
    }

    open spec fn infallible() -> bool {
        false
    }

    /// Succeeds, and latches like an eight-line bus, only while writes
    /// remain; afterwards the pin fails before anything is latched.
    fn write(&mut self, byte: u8, data: bool) -> (r: Result<(), Error>)
        ensures
            r is Ok <==> old(self).writes_left > 0,
    {
        if self.writes_left > 0 {
            self.writes_left = self.writes_left - 1;
            self.issued.push(Event::Latch { rs: data, lines: byte });
            proof {
                assert(self.history() =~= old(self).history()
                    + Self::write_events(byte, data));
            }
            Ok(())
        } else {
            proof {
                assert(self.history() =~= old(self).history()
                    + Self::write_events(byte, data).take(0));
            }
            Err(Error::PinFailure)
        }
    }

    fn delay_us(&mut self, us: u64) {
        self.issued.push(Event::DelayUs(us));
    }
}

} // verus!
