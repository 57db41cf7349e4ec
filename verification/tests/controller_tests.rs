use hd44780::bus::{EightBitBus, Event, FaultyBus, FourBitBus};
use hd44780::display_mode::{Cursor, CursorBlink, Display, DisplayMode};
use hd44780::entry_mode::{CursorMode, EntryMode};
use hd44780::error::Error;
use hd44780::{Direction, HD44780};

fn latch(rs: bool, lines: u8) -> Event {
    Event::Latch { rs, lines }
}

fn fresh_8bit() -> HD44780<EightBitBus> {
    HD44780::new_8bit(EightBitBus::new()).unwrap()
}

#[test]
fn init_8bit_sends_the_fixed_sequence_with_mandated_delays() {
    let lcd = fresh_8bit();
    let expected = vec![
        Event::DelayUs(15_000),
        latch(false, 0b0011_0000),
        Event::DelayUs(5_000),
        latch(false, 0b0011_1000),
        Event::DelayUs(100),
        latch(false, 0b0000_1110),
        Event::DelayUs(100),
        latch(false, 0b0000_0001),
        Event::DelayUs(100),
        latch(false, 0b0000_0111),
        Event::DelayUs(100),
        latch(false, 0b0000_0110),
        Event::DelayUs(100),
    ];
    assert_eq!(lcd.bus.issued, expected);
}

#[test]
fn init_4bit_sends_the_fixed_sequence_as_nibble_pairs() {
    let lcd = HD44780::new_4bit(FourBitBus::new()).unwrap();
    let expected = vec![
        Event::DelayUs(15_000),
        latch(false, 0x03),
        latch(false, 0x03),
        Event::DelayUs(5_000),
        latch(false, 0x03),
        latch(false, 0x02),
        Event::DelayUs(100),
        latch(false, 0x02),
        latch(false, 0x08),
        Event::DelayUs(100),
        latch(false, 0x00),
        latch(false, 0x0E),
        Event::DelayUs(100),
        latch(false, 0x00),
        latch(false, 0x01),
        Event::DelayUs(100),
        latch(false, 0x00),
        latch(false, 0x06),
        Event::DelayUs(100),
        latch(false, 0x08),
        latch(false, 0x00),
        Event::DelayUs(100),
    ];
    assert_eq!(lcd.bus.issued, expected);
}

#[test]
fn set_cursor_pos_masks_the_top_bit() {
    let mut a = fresh_8bit();
    let mut b = fresh_8bit();
    let start = a.bus.issued.len();
    a.set_cursor_pos(200).unwrap();
    b.set_cursor_pos(72).unwrap();
    assert_eq!(a.bus.issued[start..], b.bus.issued[start..]);
    assert_eq!(
        a.bus.issued[start..],
        [latch(false, 0b1100_1000), Event::DelayUs(100)],
    );
}

#[test]
fn shift_cursor_and_display_send_their_fixed_bytes() {
    let mut lcd = fresh_8bit();
    let start = lcd.bus.issued.len();
    lcd.shift_cursor(Direction::Right).unwrap();
    lcd.shift_cursor(Direction::Left).unwrap();
    lcd.shift_display(Direction::Right).unwrap();
    lcd.shift_display(Direction::Left).unwrap();
    assert_eq!(
        lcd.bus.issued[start..],
        [
            latch(false, 0b0001_0100),
            Event::DelayUs(100),
            latch(false, 0b0001_0000),
            Event::DelayUs(100),
            latch(false, 0b0001_1100),
            Event::DelayUs(100),
            latch(false, 0b0001_1000),
            Event::DelayUs(100),
        ],
    );
}

#[test]
fn clear_and_reset_send_their_fixed_bytes() {
    let mut lcd = fresh_8bit();
    let start = lcd.bus.issued.len();
    lcd.clear().unwrap();
    lcd.reset().unwrap();
    assert_eq!(
        lcd.bus.issued[start..],
        [
            latch(false, 0b0000_0001),
            Event::DelayUs(100),
            latch(false, 0b0000_0010),
            Event::DelayUs(100),
        ],
    );
}

#[test]
fn mutators_resend_the_whole_display_mode_byte() {
    let mut lcd = fresh_8bit();
    let start = lcd.bus.issued.len();
    // Blink turned on: the byte still carries display-on and cursor-visible.
    lcd.set_cursor_blink(CursorBlink::On).unwrap();
    // Display turned off: the byte still carries blink-on and cursor-visible.
    lcd.set_display(Display::Off).unwrap();
    // Cursor hidden: the byte still carries blink-on and display-off.
    lcd.set_cursor_visibility(Cursor::Invisible).unwrap();
    assert_eq!(
        lcd.bus.issued[start..],
        [
            latch(false, 0b0000_1111),
            Event::DelayUs(100),
            latch(false, 0b0000_1011),
            Event::DelayUs(100),
            latch(false, 0b0000_1001),
            Event::DelayUs(100),
        ],
    );
}

#[test]
fn mutators_resend_the_whole_entry_mode_byte() {
    let mut lcd = fresh_8bit();
    let start = lcd.bus.issued.len();
    // Autoscroll turned on: the byte still carries the cursor direction.
    lcd.set_autoscroll(true).unwrap();
    // Direction flipped: the byte still carries the autoscroll flag.
    lcd.set_cursor_mode(CursorMode::Left).unwrap();
    assert_eq!(
        lcd.bus.issued[start..],
        [
            latch(false, 0b0000_0111),
            Event::DelayUs(100),
            latch(false, 0b0000_0101),
            Event::DelayUs(100),
        ],
    );
}

#[test]
fn set_display_mode_sends_one_byte_for_the_whole_structure() {
    let mut lcd = fresh_8bit();
    let start = lcd.bus.issued.len();
    lcd.set_display_mode(DisplayMode {
        display: Display::Off,
        cursor_visibility: Cursor::Invisible,
        cursor_blink: CursorBlink::On,
    })
    .unwrap();
    assert_eq!(
        lcd.bus.issued[start..],
        [latch(false, 0b0000_1001), Event::DelayUs(100)],
    );
}

#[test]
fn write_str_sends_each_byte_to_the_data_register_in_order() {
    let mut lcd = fresh_8bit();
    let start = lcd.bus.issued.len();
    lcd.write_str("AB").unwrap();
    assert_eq!(
        lcd.bus.issued[start..],
        [
            latch(true, b'A'),
            Event::DelayUs(100),
            latch(true, b'B'),
            Event::DelayUs(100),
        ],
    );
}

#[test]
fn write_bytes_on_a_four_line_bus_splits_every_byte() {
    let mut lcd = HD44780::new_4bit(FourBitBus::new()).unwrap();
    let start = lcd.bus.issued.len();
    lcd.write_bytes(b"Hi").unwrap();
    assert_eq!(
        lcd.bus.issued[start..],
        [
            latch(true, 0x04),
            latch(true, 0x08),
            Event::DelayUs(100),
            latch(true, 0x06),
            latch(true, 0x09),
            Event::DelayUs(100),
        ],
    );
}

#[test]
fn write_char_narrows_to_the_low_eight_bits() {
    let mut lcd = fresh_8bit();
    let start = lcd.bus.issued.len();
    lcd.write_char('A').unwrap();
    lcd.write_char('\u{00A5}').unwrap();
    assert_eq!(
        lcd.bus.issued[start..],
        [
            latch(true, 0x41),
            Event::DelayUs(100),
            latch(true, 0xA5),
            Event::DelayUs(100),
        ],
    );
}

#[test]
fn write_byte_goes_to_the_data_register() {
    let mut lcd = fresh_8bit();
    let start = lcd.bus.issued.len();
    lcd.write_byte(0x7E).unwrap();
    assert_eq!(
        lcd.bus.issued[start..],
        [latch(true, 0x7E), Event::DelayUs(100)],
    );
}

#[test]
fn pin_failure_stops_write_bytes_at_that_byte() {
    let mut lcd = HD44780 {
        bus: FaultyBus { issued: vec![], writes_left: 1 },
        entry_mode: EntryMode { cursor_mode: CursorMode::Right, autoscroll: false },
        display_mode: DisplayMode {
            display: Display::On,
            cursor_visibility: Cursor::Visible,
            cursor_blink: CursorBlink::Off,
        },
    };
    let r = lcd.write_bytes(b"ABC");
    assert_eq!(r, Err(Error::PinFailure));
    // Only the first byte was transmitted; nothing after the failure.
    assert_eq!(lcd.bus.issued, vec![latch(true, b'A'), Event::DelayUs(100)]);
}

#[test]
fn pin_failure_before_the_first_byte_sends_nothing() {
    let mut lcd = HD44780 {
        bus: FaultyBus { issued: vec![], writes_left: 0 },
        entry_mode: EntryMode { cursor_mode: CursorMode::Right, autoscroll: false },
        display_mode: DisplayMode {
            display: Display::On,
            cursor_visibility: Cursor::Visible,
            cursor_blink: CursorBlink::Off,
        },
    };
    assert_eq!(lcd.write_str("AB"), Err(Error::PinFailure));
    assert_eq!(lcd.bus.issued, vec![]);
}

#[test]
fn write_bytes_of_nothing_sends_nothing() {
    let mut lcd = fresh_8bit();
    let start = lcd.bus.issued.len();
    lcd.write_bytes(b"").unwrap();
    lcd.write_str("").unwrap();
    assert_eq!(lcd.bus.issued.len(), start);
}

#[test]
fn set_cursor_pos_keeps_all_seven_low_bits() {
    let mut lcd = fresh_8bit();
    let start = lcd.bus.issued.len();
    lcd.set_cursor_pos(0x7F).unwrap();
    lcd.set_cursor_pos(0).unwrap();
    assert_eq!(
        lcd.bus.issued[start..],
        [
            latch(false, 0xFF),
            Event::DelayUs(100),
            latch(false, 0x80),
            Event::DelayUs(100),
        ],
    );
}

#[test]
fn stored_modes_track_every_mutation() {
    let mut lcd = fresh_8bit();
    lcd.set_autoscroll(true).unwrap();
    lcd.set_cursor_mode(CursorMode::Left).unwrap();
    lcd.set_cursor_blink(CursorBlink::On).unwrap();
    assert!(lcd.entry_mode.autoscroll);
    assert_eq!(lcd.entry_mode.cursor_mode, CursorMode::Left);
    assert_eq!(lcd.display_mode.cursor_blink, CursorBlink::On);
    assert_eq!(lcd.display_mode.display, Display::On);
}

#[test]
fn entry_and_display_bytes_compose_all_fields() {
    let e = EntryMode { cursor_mode: CursorMode::Left, autoscroll: true };
    assert_eq!(e.as_byte(), 0b0000_0101);
    let d = DisplayMode {
        display: Display::On,
        cursor_visibility: Cursor::Invisible,
        cursor_blink: CursorBlink::On,
    };
    assert_eq!(d.as_byte(), 0b0000_1101);
}
