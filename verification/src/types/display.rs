use vstd::prelude::*;

verus! {

/// The LED display state.
///
/// The LEDs can be all off (default), all on, or all blinking at 1/2Hz, 1Hz, or 2Hz.
#[derive(Clone, Copy, Debug, PartialEq, Eq, Structural)]
pub enum Display {
    /// Display off.
    /// *This is the Power-on Reset default.*
    Off,
    /// Display on; blinking off.
    On,
    /// Display on; blinking @ 2Hz.
    BlinkingTwoHz,
    /// Display on; blinking @ 1Hz.
    BlinkingOneHz,
    /// Display on; blinking @ 0.5Hz.
    BlinkingHalfHz,
}

impl Display {
    /// The display setup bits of this state: bit 0 turns the display on, bits 2..1 select the
    /// blinking rate.
    pub open spec fn setup_bits(self) -> u8 {
        match self {
            Display::Off => 0b0000,
            Display::On => 0b0001,
            Display::BlinkingTwoHz => 0b0011,
            Display::BlinkingOneHz => 0b0101,
            Display::BlinkingHalfHz => 0b0111,
        }
    }

    /// The state that the display setup bits `raw` select; bits above bit 2 are ignored.
    pub open spec fn from_setup_bits(raw: u8) -> Display {
        let bits = raw % 8;
        if bits == 0b0001 {
            Display::On
        } else if bits == 0b0011 {
            Display::BlinkingTwoHz
        } else if bits == 0b0101 {
            Display::BlinkingOneHz
        } else if bits == 0b0111 {
            Display::BlinkingHalfHz
        } else {
            Display::Off
        }
    }

    /// The display setup bits of this state, the number that stands for it in the command.
    pub fn bits(self) -> (b: u8)
        ensures
            b == self.setup_bits(),
    {
        match self {
            Display::Off => 0b0000,
            Display::On => 0b0001,
            Display::BlinkingTwoHz => 0b0011,
            Display::BlinkingOneHz => 0b0101,
            Display::BlinkingHalfHz => 0b0111,
        }
    }

    /// Get the command to set the corresponding state via I2C.
    pub fn as_command(self) -> (c: u8)
        ensures
            c == 0x80 | self.setup_bits(),
            c == 0x80 + self.setup_bits(),
    {
        let bits = self.bits();
        assert((0b1000u8 << 4u8) == 0x80u8 && (0x80u8 | bits) == 0x80u8 + bits) by (bit_vector)
            requires
                bits <= 7,
        ;
        (0b1000u8 << 4u8) | bits
    }

    /// The state selected by the display setup bits `raw`. Only the three lowest bits matter:
    /// with bit 0 clear the display is off, otherwise bits 2..1 select the blinking rate.
    pub fn from_raw(raw: u8) -> (d: Self)
        ensures
            d == Display::from_setup_bits(raw),
            raw % 2 == 0 ==> d == Display::Off,
            raw % 2 == 1 ==> d.setup_bits() == raw % 8,
    {
        // Only three bits matter
        let bits = raw & 0b0111;
        assert(bits == raw % 8 && (bits & 1) == raw % 2) by (bit_vector)
            requires
                bits == raw & 7,
        ;
        assert(bits & 1 == 0 ==> bits == 0 || bits == 2 || bits == 4 || bits == 6) by (bit_vector)
            requires
                bits <= 7,
        ;
        assert(bits & 1 != 0 ==> bits == 1 || bits == 3 || bits == 5 || bits == 7) by (bit_vector)
            requires
                bits <= 7,
        ;
        assert(Display::from_setup_bits(raw) == Display::from_setup_bits(bits));
        if bits & 0b1 == 0 {
            Display::Off
        } else {
            let rate = bits >> 1u8;
            assert(rate == bits / 2) by (bit_vector)
                requires
                    rate == bits >> 1u8,
            ;
            match rate {
                0b00 => Display::On,
                0b01 => Display::BlinkingTwoHz,
                0b10 => Display::BlinkingOneHz,
                _ => Display::BlinkingHalfHz,
            }
        }
    }
}

/// The display setup command of a state carries its kind (`0b1000`) in the high nibble, and
/// decoding its low nibble gives the state back.
pub proof fn lemma_display_command_round_trip(d: Display)
    ensures
        (0x80 + d.setup_bits()) / 16 == 0b1000,
        Display::from_setup_bits(((0x80 + d.setup_bits()) % 16) as u8) == d,
{
}

impl Default for Display {
    /// The display is off by default.
    fn default() -> (d: Self)
        ensures
            d == Display::Off,
    {
        Display::Off
    }
}

} // verus!
