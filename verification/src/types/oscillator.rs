use vstd::prelude::*;

verus! {

/// System oscillator setup and control.
#[derive(Clone, Copy, Debug, PartialEq, Eq, Structural)]
pub enum Oscillator {
    /// Normal operation mode.
    On,
    /// Standby mode.
    ///
    /// *This is the Power-on Reset default.*
    Off,
}

impl Oscillator {
    /// The oscillator setup bit of this mode.
    pub open spec fn setup_bit(self) -> u8 {
        match self {
            Oscillator::On => 1,
            Oscillator::Off => 0,
        }
    }

    /// The oscillator setup bit of this mode, the number that stands for it in the command.
    pub fn bits(&self) -> (b: u8)
        ensures
            b == self.setup_bit(),
    {
        match self {
            Oscillator::On => 0b0000_0001,
            Oscillator::Off => 0b0000_0000,
        }
    }

    /// Get the command to set the corresponding mode via I2C.
    pub fn as_command(&self) -> (c: u8)
        ensures
            c == 0x20 | self.setup_bit(),
            c == 0x20 + self.setup_bit(),
    {
        let bit = self.bits();
        assert((0b0010u8 << 4u8) == 0x20u8 && (0x20u8 | bit) == 0x20u8 + bit) by (bit_vector)
            requires
                bit <= 1,
        ;
        (0b0010u8 << 4u8) | bit
    }
}

/// The system setup command of a mode carries its kind (`0b0010`) in the high nibble and the
/// mode in bit 0.
pub proof fn lemma_oscillator_command_round_trip(o: Oscillator)
    ensures
        (0x20 + o.setup_bit()) / 16 == 0b0010,
        (0x20 + o.setup_bit()) % 2 == 1 <==> o == Oscillator::On,
{
}

impl Default for Oscillator {
    /// The oscillator is in standby by default.
    fn default() -> (o: Self)
        ensures
            o == Oscillator::Off,
    {
        Oscillator::Off
    }
}

} // verus!
