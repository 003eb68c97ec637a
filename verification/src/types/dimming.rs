use vstd::prelude::*;

verus! {

/// Display dimming.
///
/// The whole display is dimmed via PWM @ (N + 1)/16 duty cycle; individual LEDs cannot be dimmed
/// independently. The value is always in the inclusive range 0..=15.
#[derive(Clone, Copy, Debug, PartialEq, Eq, Structural)]
pub struct Dimming(u8);

impl View for Dimming {
    type V = u8;

    /// The brightness level, 0-indexed (`0` is 1/16, `15` is 16/16).
    closed spec fn view(&self) -> u8 {
        self.0
    }
}

impl Dimming {
    /// Two dimmings with the same level are the same.
    pub proof fn lemma_view_injective(a: Dimming, b: Dimming)
        requires
            a@ == b@,
        ensures
            a == b,
    {
    }

    #[verifier::type_invariant]
    spec fn level_in_range(self) -> bool {
        self.0 <= 15
    }

    /// Return a validated `Dimming` value from the given `u8`.
    ///
    /// The brightness values are 0-indexed, e.g. `0u8` is equivalent to `1/16`, and `15u8` is
    /// `16/16`. Levels above 15 are not accepted.
    pub fn new(value: u8) -> (d: Self)
        requires
            value <= 15,
        ensures
            d@ == value,
    {
        Dimming(value)
    }

    /// Return the raw value of the brightness level.
    pub fn raw(self) -> (r: u8)
        ensures
            r == self@,
            r <= 15,
    {
        proof {
            use_type_invariant(&self);
        }
        self.0
    }

    /// The command byte that sets this dimming level.
    pub fn as_command(self) -> (c: u8)
        ensures
            c == 0xE0 | self@,
            c == 0xE0 + self@,
    {
        proof {
            use_type_invariant(&self);
        }
        let level = self.0;
        assert((0b1110u8 << 4u8) == 0xE0u8 && (0xE0u8 | level) == 0xE0u8 + level) by (bit_vector)
            requires
                level <= 15,
        ;
        (0b1110u8 << 4u8) | level
    }

    /// Minimum brightness @ 1/16 PWM.
    #[allow(non_snake_case)]
    pub fn BRIGHTNESS_MIN() -> (d: Self)
        ensures
            d@ == 0,
    {
        Dimming(0)
    }

    /// Maximum brightness @ 16/16 PWM.
    #[allow(non_snake_case)]
    pub fn BRIGHTNESS_MAX() -> (d: Self)
        ensures
            d@ == 15,
    {
        Dimming(15)
    }
}

/// The dimming command of a level carries its kind (`0b1110`) in the high nibble and the level
/// in the low nibble.
pub proof fn lemma_dimming_command_round_trip(level: u8)
    requires
        level <= 15,
    ensures
        (0xE0 + level) / 16 == 0b1110,
        (0xE0 + level) % 16 == level,
{
}

impl Default for Dimming {
    /// The default is the maximum brightness.
    fn default() -> (d: Self)
        ensures
            d@ == 15,
    {
        Self::BRIGHTNESS_MAX()
    }
}

} // verus!
