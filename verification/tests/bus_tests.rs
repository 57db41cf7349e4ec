use hd44780::bus::{DataBus, EightBitBus, Event, FaultyBus, FourBitBus};
use hd44780::error::Error;

fn latch(rs: bool, lines: u8) -> Event {
    Event::Latch { rs, lines }
}

#[test]
fn eight_bit_write_is_one_transaction() {
    let mut bus = EightBitBus::new();
    bus.write(0xA5, true).unwrap();
    assert_eq!(bus.issued, vec![latch(true, 0xA5)]);
}

#[test]
fn eight_bit_write_keeps_flag_and_byte() {
    let mut bus = EightBitBus::new();
    bus.write(0x00, false).unwrap();
    bus.write(0xFF, true).unwrap();
    assert_eq!(bus.issued, vec![latch(false, 0x00), latch(true, 0xFF)]);
}

#[test]
fn four_bit_write_is_two_transactions_high_nibble_first() {
    let mut bus = FourBitBus::new();
    bus.write(0xA5, false).unwrap();
    assert_eq!(bus.issued, vec![latch(false, 0x0A), latch(false, 0x05)]);
}

#[test]
fn four_bit_write_holds_register_select_across_both_nibbles() {
    let mut bus = FourBitBus::new();
    bus.write(0x3C, true).unwrap();
    assert_eq!(bus.issued, vec![latch(true, 0x03), latch(true, 0x0C)]);
}

#[test]
fn bus_delay_is_recorded_in_order() {
    let mut bus = EightBitBus::new();
    bus.write(0x01, false).unwrap();
    bus.delay_us(100);
    assert_eq!(bus.issued, vec![latch(false, 0x01), Event::DelayUs(100)]);
}

#[test]
fn faulty_bus_fails_after_its_writes_run_out() {
    let mut bus = FaultyBus { issued: vec![], writes_left: 1 };
    assert_eq!(bus.write(0x41, true), Ok(()));
    assert_eq!(bus.write(0x42, true), Err(Error::PinFailure));
    assert_eq!(bus.issued, vec![latch(true, 0x41)]);
}
