use core::cmp::Ordering;
use vstd::prelude::*;
use vstd::std_specs::cmp::PartialOrdSpec;

verus! {

/// Display RAM data address.
#[derive(Clone, Copy, Debug, PartialEq, Eq, Structural, Hash, Ord)]
pub struct DisplayDataAddress {
    row: u8,
}

impl View for DisplayDataAddress {
    type V = u8;

    /// The addressed row.
    closed spec fn view(&self) -> u8 {
        self.row
    }
}

impl DisplayDataAddress {
    /// Two addresses of the same row are the same.
    pub proof fn lemma_view_injective(a: DisplayDataAddress, b: DisplayDataAddress)
        requires
            a@ == b@,
        ensures
            a == b,
    {
    }

    #[verifier::type_invariant]
    spec fn row_in_range(self) -> bool {
        self.row <= 15
    }

    /// Create the address corresponding to the specified row. The row must be <= 15.
    pub fn from_row(row: u8) -> (a: Self)
        requires
            row <= 15,
        ensures
            a@ == row,
    {
        Self { row }
    }
}

impl PartialOrd for DisplayDataAddress {
    /// Addresses are ordered by their rows.
    fn partial_cmp(&self, other: &Self) -> (r: Option<Ordering>) {
        if self.row < other.row {
            Some(Ordering::Less)
        } else if self.row == other.row {
            Some(Ordering::Equal)
        } else {
            Some(Ordering::Greater)
        }
    }
}

impl vstd::std_specs::cmp::PartialOrdSpecImpl for DisplayDataAddress {
    open spec fn obeys_partial_cmp_spec() -> bool {
        true
    }

    open spec fn partial_cmp_spec(&self, other: &Self) -> Option<Ordering> {
        if self@ < other@ {
            Some(Ordering::Less)
        } else if self@ == other@ {
            Some(Ordering::Equal)
        } else {
            Some(Ordering::Greater)
        }
    }
}

/// The order of display RAM addresses is the order of their rows.
pub proof fn lemma_address_order_follows_rows(a: DisplayDataAddress, b: DisplayDataAddress)
    ensures
        PartialOrdSpec::partial_cmp_spec(&a, &b) == Some(Ordering::Less) <==> a@ < b@,
        PartialOrdSpec::partial_cmp_spec(&a, &b) == Some(Ordering::Equal) <==> a == b,
        PartialOrdSpec::partial_cmp_spec(&a, &b) == Some(Ordering::Greater) <==> a@ > b@,
{
    if a@ == b@ {
        DisplayDataAddress::lemma_view_injective(a, b);
    }
}

impl Default for DisplayDataAddress {
    /// The address of row 0.
    fn default() -> (a: Self)
        ensures
            a@ == 0,
    {
        DisplayDataAddress { row: 0 }
    }
}

} // verus!
