use ht16k33::{
    Dimming, Display, DisplayData, DisplayDataAddress, LedLocation, Oscillator, ValidationError,
};

#[test]
fn brightness_min() {
    assert_eq!(
        Dimming::new(0),
        Dimming::BRIGHTNESS_MIN(),
        "Dimming MIN brightness doesn't match 1/16 value"
    );
}

#[test]
fn brightness_max() {
    assert_eq!(
        Dimming::new(15),
        Dimming::BRIGHTNESS_MAX(),
        "Dimming MAX brightness doesn't match 16/16 value"
    );
}

#[test]
fn dimming_default() {
    assert_eq!(
        Dimming::BRIGHTNESS_MAX(),
        Dimming::default(),
        "Dimming default is MAX brightness"
    );
}

#[test]
fn from_u8() {
    for value in 0u8..16 {
        let dimming = Dimming::new(value);
        assert_eq!(value, dimming.raw());
    }
}

#[test]
fn dimming_as_command() {
    assert_eq!(Dimming::new(0).as_command(), 0xE0);
    assert_eq!(Dimming::new(7).as_command(), 0xE7);
    assert_eq!(Dimming::BRIGHTNESS_MAX().as_command(), 0xEF);
}

#[test]
fn display_default() {
    assert_eq!(Display::Off, Display::default(), "Display default is OFF");
}

#[test]
fn display_as_command() {
    assert_eq!(Display::Off.as_command(), 0x80);
    assert_eq!(Display::On.as_command(), 0x81);
    assert_eq!(Display::BlinkingTwoHz.as_command(), 0x83);
    assert_eq!(Display::BlinkingOneHz.as_command(), 0x85);
    assert_eq!(Display::BlinkingHalfHz.as_command(), 0x87);
}

#[test]
fn display_from_raw() {
    assert_eq!(Display::from_raw(0), Display::Off);
    assert_eq!(Display::from_raw(1), Display::On);
    assert_eq!(Display::from_raw(2), Display::Off);
    assert_eq!(Display::from_raw(3), Display::BlinkingTwoHz);
    assert_eq!(Display::from_raw(5), Display::BlinkingOneHz);
    assert_eq!(Display::from_raw(7), Display::BlinkingHalfHz);
    // Only the three lowest bits matter.
    assert_eq!(Display::from_raw(0b1111), Display::BlinkingHalfHz);
    assert_eq!(Display::from_raw(0b1110), Display::Off);
    assert_eq!(Display::from_raw(0xF9), Display::On);
}

#[test]
fn display_command_round_trip() {
    for display in [
        Display::Off,
        Display::On,
        Display::BlinkingTwoHz,
        Display::BlinkingOneHz,
        Display::BlinkingHalfHz,
    ] {
        let command = display.as_command();
        assert_eq!(command >> 4, 0b1000);
        assert_eq!(Display::from_raw(command & 0x0F), display);
    }
}

#[test]
fn display_data_default() {
    assert_eq!(
        DisplayData::ROW_NONE(),
        DisplayData::default(),
        "DisplayData default ROW_NONE"
    );
}

#[test]
fn all_on() {
    let data = DisplayData::ROW_0()
        | DisplayData::ROW_1()
        | DisplayData::ROW_2()
        | DisplayData::ROW_3()
        | DisplayData::ROW_4()
        | DisplayData::ROW_5()
        | DisplayData::ROW_6()
        | DisplayData::ROW_7();

    assert_eq!(data, DisplayData::all(), "DisplayData is all enabled");
}

#[test]
fn display_data_set_operations() {
    let mut data = DisplayData::empty();
    assert!(data.is_empty());
    data.insert(DisplayData::ROW_2());
    assert!(data.contains(DisplayData::ROW_2()));
    assert_eq!(data.bits(), 0b0000_0100);
    data.set(DisplayData::ROW_7(), true);
    assert_eq!(data.bits(), 0b1000_0100);
    assert!(data.intersects(DisplayData::ROW_7() | DisplayData::ROW_0()));
    assert!(!data.contains(DisplayData::ROW_7() | DisplayData::ROW_0()));
    data.remove(DisplayData::ROW_2());
    assert_eq!(data, DisplayData::ROW_7());
    data.set(DisplayData::ROW_7(), false);
    assert!(data.is_empty());
    assert!(DisplayData::from_bits_retain(0xFF).is_all());
    assert_eq!(
        DisplayData::ROW_1().union(DisplayData::ROW_3()).bits(),
        0b0000_1010
    );
}

#[test]
fn display_data_address_from_row() {
    assert_eq!(DisplayDataAddress::from_row(0), DisplayDataAddress::default());
    assert_ne!(DisplayDataAddress::from_row(15), DisplayDataAddress::from_row(14));
}

#[test]
fn led_location_new() {
    let location = LedLocation::new(0, 0).unwrap();
    assert_eq!(location, LedLocation::default());
    let location = LedLocation::new(15, 7).unwrap();
    assert_eq!((location.row, location.column), (15, 7));
}

#[test]
fn led_location_errors() {
    match LedLocation::new(16, 9) {
        Err(ValidationError::ValueTooLarge { name, value, limit, inclusive }) => {
            assert_eq!((name, value, limit, inclusive), ("row", 16, 16, false));
        }
        Ok(_) => panic!("row 16 is out of range"),
    }
    match LedLocation::new(3, 8) {
        Err(ValidationError::ValueTooLarge { name, value, limit, inclusive }) => {
            assert_eq!((name, value, limit, inclusive), ("column", 8, 8, false));
        }
        Ok(_) => panic!("column 8 is out of range"),
    }
}

#[test]
#[should_panic]
fn row_too_large() {
    let _ = LedLocation::new(16, 0).unwrap();
}

#[test]
#[should_panic]
fn column_too_large() {
    let _ = LedLocation::new(0, 8).unwrap();
}

#[test]
fn oscillator_default() {
    assert_eq!(
        Oscillator::Off,
        Oscillator::default(),
        "Oscillator default is OFF"
    );
}

#[test]
fn oscillator_as_command() {
    assert_eq!(Oscillator::On.as_command(), 0x21);
    assert_eq!(Oscillator::Off.as_command(), 0x20);
}

#[test]
fn display_bits() {
    assert_eq!(Display::Off.bits(), 0b0000);
    assert_eq!(Display::On.bits(), 0b0001);
    assert_eq!(Display::BlinkingTwoHz.bits(), 0b0011);
    assert_eq!(Display::BlinkingOneHz.bits(), 0b0101);
    assert_eq!(Display::BlinkingHalfHz.bits(), 0b0111);
}

#[test]
fn oscillator_bits() {
    assert_eq!(Oscillator::On.bits(), 1);
    assert_eq!(Oscillator::Off.bits(), 0);
}

#[test]
fn display_data_more_operations() {
    let a = DisplayData::from_bits_retain(0b1100_1010);
    let b = DisplayData::from_bits_retain(0b1010_0110);
    assert_eq!(a.intersection(b).bits(), 0b1000_0010);
    assert_eq!((a & b).bits(), 0b1000_0010);
    assert_eq!(a.difference(b).bits(), 0b0100_1000);
    assert_eq!((a - b).bits(), 0b0100_1000);
    assert_eq!(a.symmetric_difference(b).bits(), 0b0110_1100);
    assert_eq!((a ^ b).bits(), 0b0110_1100);
    assert_eq!(a.complement().bits(), 0b0011_0101);
    assert_eq!((!a).bits(), 0b0011_0101);
    assert_eq!(DisplayData::from_bits(0x5A).map(|d| d.bits()), Some(0x5A));
    assert_eq!(DisplayData::from_bits_truncate(0xA5).bits(), 0xA5);

    let mut c = a;
    c.toggle(b);
    assert_eq!(c.bits(), 0b0110_1100);
    c |= DisplayData::ROW_0();
    assert_eq!(c.bits(), 0b0110_1101);
    c &= DisplayData::from_bits_retain(0b0000_1111);
    assert_eq!(c.bits(), 0b0000_1101);
    c ^= DisplayData::ROW_1();
    assert_eq!(c.bits(), 0b0000_1111);
    c -= DisplayData::ROW_3();
    assert_eq!(c.bits(), 0b0000_0111);
}

#[test]
fn display_data_address_order_follows_rows() {
    for a in 0u8..16 {
        for b in 0u8..16 {
            let (x, y) = (DisplayDataAddress::from_row(a), DisplayDataAddress::from_row(b));
            assert_eq!(x.partial_cmp(&y), a.partial_cmp(&b));
            assert_eq!(x.cmp(&y), a.cmp(&b));
            assert_eq!(x < y, a < b);
        }
    }
}
