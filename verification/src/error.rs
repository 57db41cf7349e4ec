use vstd::prelude::*;

verus! {

/// The one failure a driver operation can surface: a digital output pin
/// refused to change level while a byte was being presented to the chip.
#[derive(Clone, Copy, PartialEq, Eq, Structural, Debug)]
pub enum Error {
    PinFailure,
}

} // verus!
