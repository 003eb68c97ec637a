use vstd::prelude::*;

verus! {

/// RAM data for LED display.
///
/// A set of the eight LEDs of one display RAM row: the LED for the corresponding flag is enabled
/// if its bit is `1`.
#[derive(Clone, Copy, Debug, PartialEq, Eq, Structural, Hash, PartialOrd, Ord)]
pub struct DisplayData {
    bits: u8,
}

impl View for DisplayData {
    type V = u8;

    /// The row data, one bit per LED.
    closed spec fn view(&self) -> u8 {
        self.bits
    }
}

impl DisplayData {
    /// Two display data with the same bits are the same.
    pub proof fn lemma_view_injective(a: DisplayData, b: DisplayData)
        requires
            a@ == b@,
        ensures
            a == b,
    {
    }

    /// No LEDs enabled.
    #[allow(non_snake_case)]
    pub fn ROW_NONE() -> (d: Self)
        ensures
            d@ == 0,
    {
        DisplayData { bits: 0b0000_0000 }
    }

    /// Led on column 0 enabled.
    #[allow(non_snake_case)]
    pub fn ROW_0() -> (d: Self)
        ensures
            d@ == 0b0000_0001,
    {
        DisplayData { bits: 0b0000_0001 }
    }

    /// Led on column 1 enabled.
    #[allow(non_snake_case)]
    pub fn ROW_1() -> (d: Self)
        ensures
            d@ == 0b0000_0010,
    {
        DisplayData { bits: 0b0000_0010 }
    }

    /// Led on column 2 enabled.
    #[allow(non_snake_case)]
    pub fn ROW_2() -> (d: Self)
        ensures
            d@ == 0b0000_0100,
    {
        DisplayData { bits: 0b0000_0100 }
    }

    /// Led on column 3 enabled.
    #[allow(non_snake_case)]
    pub fn ROW_3() -> (d: Self)
        ensures
            d@ == 0b0000_1000,
    {
        DisplayData { bits: 0b0000_1000 }
    }

    /// Led on column 4 enabled.
    #[allow(non_snake_case)]
    pub fn ROW_4() -> (d: Self)
        ensures
            d@ == 0b0001_0000,
    {
        DisplayData { bits: 0b0001_0000 }
    }

    /// Led on column 5 enabled.
    #[allow(non_snake_case)]
    pub fn ROW_5() -> (d: Self)
        ensures
            d@ == 0b0010_0000,
    {
        DisplayData { bits: 0b0010_0000 }
    }

    /// Led on column 6 enabled.
    #[allow(non_snake_case)]
    pub fn ROW_6() -> (d: Self)
        ensures
            d@ == 0b0100_0000,
    {
        DisplayData { bits: 0b0100_0000 }
    }

    /// Led on column 7 enabled.
    #[allow(non_snake_case)]
    pub fn ROW_7() -> (d: Self)
        ensures
            d@ == 0b1000_0000,
    {
        DisplayData { bits: 0b1000_0000 }
    }

    /// No LEDs enabled.
    pub fn empty() -> (d: Self)
        ensures
            d@ == 0,
    {
        DisplayData { bits: 0 }
    }

    /// All eight LEDs enabled.
    pub fn all() -> (d: Self)
        ensures
            d@ == 0xFF,
    {
        DisplayData { bits: 0xFF }
    }

    /// The raw row data.
    pub fn bits(&self) -> (b: u8)
        ensures
            b == self@,
    {
        self.bits
    }

    /// The row data `bits`; every bit of a `u8` names an LED, so all of them are kept.
    pub fn from_bits_retain(bits: u8) -> (d: Self)
        ensures
            d@ == bits,
    {
        DisplayData { bits }
    }

    /// The row data `bits`, when every set bit names an LED; all eight bits do, so this is
    /// always `Some`.
    pub fn from_bits(bits: u8) -> (d: Option<Self>)
        ensures
            d matches Some(data) && data@ == bits,
    {
        let truncated = Self::from_bits_truncate(bits);
        if truncated.bits == bits {
            Some(truncated)
        } else {
            None
        }
    }

    /// The row data `bits` with the bits that name no LED cleared; all eight bits name one, so
    /// all of them are kept.
    pub fn from_bits_truncate(bits: u8) -> (d: Self)
        ensures
            d@ == bits & 0xFF,
            d@ == bits,
    {
        assert(bits & 0xFFu8 == bits) by (bit_vector);
        DisplayData { bits: bits & Self::all().bits }
    }

    /// Whether no LED is enabled.
    pub fn is_empty(&self) -> (b: bool)
        ensures
            b == (self@ == 0),
    {
        self.bits == 0
    }

    /// Whether all eight LEDs are enabled.
    pub fn is_all(&self) -> (b: bool)
        ensures
            b == (self@ == 0xFF),
    {
        self.bits == 0xFF
    }

    /// Whether every LED enabled in `other` is enabled in `self`.
    pub fn contains(&self, other: Self) -> (b: bool)
        ensures
            b == (self@ & other@ == other@),
    {
        self.bits & other.bits == other.bits
    }

    /// Whether some LED is enabled in both `self` and `other`.
    pub fn intersects(&self, other: Self) -> (b: bool)
        ensures
            b == (self@ & other@ != 0),
    {
        self.bits & other.bits != 0
    }

    /// The LEDs enabled in `self` or in `other`.
    pub fn union(self, other: Self) -> (d: Self)
        ensures
            d@ == self@ | other@,
    {
        DisplayData { bits: self.bits | other.bits }
    }

    /// The LEDs enabled in both `self` and `other`.
    pub fn intersection(self, other: Self) -> (d: Self)
        ensures
            d@ == self@ & other@,
    {
        DisplayData { bits: self.bits & other.bits }
    }

    /// The LEDs enabled in `self` but not in `other`.
    pub fn difference(self, other: Self) -> (d: Self)
        ensures
            d@ == self@ & !other@,
    {
        DisplayData { bits: self.bits & !other.bits }
    }

    /// The LEDs enabled in exactly one of `self` and `other`.
    pub fn symmetric_difference(self, other: Self) -> (d: Self)
        ensures
            d@ == self@ ^ other@,
    {
        DisplayData { bits: self.bits ^ other.bits }
    }

    /// The LEDs not enabled in `self`.
    pub fn complement(self) -> (d: Self)
        ensures
            d@ == !self@ & 0xFF,
            d@ == !self@,
    {
        let bits = !self.bits;
        assert(bits & 0xFFu8 == bits) by (bit_vector);
        Self::from_bits_truncate(bits)
    }

    /// Switches the LEDs of `other`: the enabled ones off, the others on.
    pub fn toggle(&mut self, other: Self)
        ensures
            final(self)@ == old(self)@ ^ other@,
    {
        *self = self.symmetric_difference(other);
    }

    /// Enables the LEDs of `other`.
    pub fn insert(&mut self, other: Self)
        ensures
            final(self)@ == old(self)@ | other@,
    {
        self.bits = self.bits | other.bits;
    }

    /// Disables the LEDs of `other`.
    pub fn remove(&mut self, other: Self)
        ensures
            final(self)@ == old(self)@ & !other@,
    {
        self.bits = self.bits & !other.bits;
    }

    /// Enables the LEDs of `other` when `value` holds, and disables them otherwise.
    pub fn set(&mut self, other: Self, value: bool)
        ensures
            final(self)@ == if value {
                old(self)@ | other@
            } else {
                old(self)@ & !other@
            },
    {
        if value {
            self.insert(other);
        } else {
            self.remove(other);
        }
    }
}

impl core::ops::BitOr for DisplayData {
    type Output = Self;

    /// The LEDs enabled in `self` or in `rhs`.
    fn bitor(self, rhs: Self) -> (d: Self)
        ensures
            d@ == self@ | rhs@,
    {
        DisplayData { bits: self.bits | rhs.bits }
    }
}

impl vstd::std_specs::ops::BitOrSpecImpl for DisplayData {
    open spec fn obeys_bitor_spec() -> bool {
        true
    }

    open spec fn bitor_req(self, rhs: Self) -> bool {
        true
    }

    closed spec fn bitor_spec(self, rhs: Self) -> Self {
        DisplayData { bits: self.bits | rhs.bits }
    }
}

impl core::ops::BitAnd for DisplayData {
    type Output = Self;

    /// The LEDs enabled in both `self` and `rhs`.
    fn bitand(self, rhs: Self) -> (d: Self)
        ensures
            d@ == self@ & rhs@,
    {
        self.intersection(rhs)
    }
}

impl vstd::std_specs::ops::BitAndSpecImpl for DisplayData {
    open spec fn obeys_bitand_spec() -> bool {
        true
    }

    open spec fn bitand_req(self, rhs: Self) -> bool {
        true
    }

    closed spec fn bitand_spec(self, rhs: Self) -> Self {
        DisplayData { bits: self.bits & rhs.bits }
    }
}

impl core::ops::BitXor for DisplayData {
    type Output = Self;

    /// The LEDs enabled in exactly one of `self` and `rhs`.
    fn bitxor(self, rhs: Self) -> (d: Self)
        ensures
            d@ == self@ ^ rhs@,
    {
        self.symmetric_difference(rhs)
    }
}

impl vstd::std_specs::ops::BitXorSpecImpl for DisplayData {
    open spec fn obeys_bitxor_spec() -> bool {
        true
    }

    open spec fn bitxor_req(self, rhs: Self) -> bool {
        true
    }

    closed spec fn bitxor_spec(self, rhs: Self) -> Self {
        DisplayData { bits: self.bits ^ rhs.bits }
    }
}

impl core::ops::Sub for DisplayData {
    type Output = Self;

    /// The LEDs enabled in `self` but not in `rhs`.
    fn sub(self, rhs: Self) -> (d: Self)
        ensures
            d@ == self@ & !rhs@,
    {
        self.difference(rhs)
    }
}

impl vstd::std_specs::ops::SubSpecImpl for DisplayData {
    open spec fn obeys_sub_spec() -> bool {
        true
    }

    open spec fn sub_req(self, rhs: Self) -> bool {
        true
    }

    closed spec fn sub_spec(self, rhs: Self) -> Self {
        DisplayData { bits: self.bits & !rhs.bits }
    }
}

impl core::ops::Not for DisplayData {
    type Output = Self;

    /// The LEDs not enabled in `self`.
    fn not(self) -> (d: Self)
        ensures
            d@ == !self@,
    {
        self.complement()
    }
}

impl vstd::std_specs::ops::NotSpecImpl for DisplayData {
    open spec fn obeys_not_spec() -> bool {
        true
    }

    open spec fn not_req(self) -> bool {
        true
    }

    closed spec fn not_spec(self) -> Self {
        DisplayData { bits: !self.bits }
    }
}

impl core::ops::BitOrAssign for DisplayData {
    /// Enables the LEDs of `rhs`.
    fn bitor_assign(&mut self, rhs: Self)
        ensures
            final(self)@ == old(self)@ | rhs@,
    {
        self.insert(rhs);
    }
}

impl core::ops::BitAndAssign for DisplayData {
    /// Keeps enabled only the LEDs that are also enabled in `rhs`.
    fn bitand_assign(&mut self, rhs: Self)
        ensures
            final(self)@ == old(self)@ & rhs@,
    {
        *self = self.intersection(rhs);
    }
}

impl core::ops::BitXorAssign for DisplayData {
    /// Switches the LEDs of `rhs`.
    fn bitxor_assign(&mut self, rhs: Self)
        ensures
            final(self)@ == old(self)@ ^ rhs@,
    {
        self.toggle(rhs);
    }
}

impl core::ops::SubAssign for DisplayData {
    /// Disables the LEDs of `rhs`.
    fn sub_assign(&mut self, rhs: Self)
        ensures
            final(self)@ == old(self)@ & !rhs@,
    {
        self.remove(rhs);
    }
}

impl Default for DisplayData {
    /// No LEDs enabled.
    fn default() -> (d: Self)
        ensures
            d@ == 0,
    {
        DisplayData { bits: 0 }
    }
}

/// After enabling the LEDs of `other`, they are all enabled, and the LEDs enabled before still are.
pub proof fn lemma_insert_then_contains(data: u8, other: u8)
    ensures
        (data | other) & other == other,
        (data | other) & data == data,
{
    assert((data | other) & other == other && (data | other) & data == data) by (bit_vector);
}

/// After disabling the LEDs of `other`, none of them is enabled, and the others keep their state.
pub proof fn lemma_remove_then_disjoint(data: u8, other: u8)
    ensures
        (data & !other) & other == 0,
        (data & !other) | (data & other) == data,
{
    assert((data & !other) & other == 0 && (data & !other) | (data & other) == data)
        by (bit_vector);
}

/// The eight single-LED flags together enable all LEDs.
pub proof fn lemma_rows_make_all()
    ensures
        0b0000_0001u8 | 0b0000_0010u8 | 0b0000_0100u8 | 0b0000_1000u8 | 0b0001_0000u8
            | 0b0010_0000u8 | 0b0100_0000u8 | 0b1000_0000u8 == 0xFFu8,
{
    assert(0b0000_0001u8 | 0b0000_0010u8 | 0b0000_0100u8 | 0b0000_1000u8 | 0b0001_0000u8
        | 0b0010_0000u8 | 0b0100_0000u8 | 0b1000_0000u8 == 0xFFu8) by (bit_vector);
}

} // verus!
