use vstd::prelude::*;

use crate::constants::{COLUMN_SIZE, ROWS_SIZE};
use crate::errors::ValidationError;

verus! {

/// Represents the LED location.
#[derive(Clone, Copy, Debug, PartialEq, Eq, Structural, Hash, PartialOrd, Ord)]
pub struct LedLocation {
    /// The Display RAM `row` address.
    pub row: u8,
    /// The Display RAM `column` data.
    pub column: u8,
}

impl LedLocation {
    /// Create an `LedLocation` with the given `row` and `column` values.
    ///
    /// # Errors
    ///
    /// The `row` and `column` values are validated to be within their respective [`ROWS_SIZE`]
    /// and [`COLUMN_SIZE`] ranges of the device; the row is checked first. If validation fails
    /// then [`ValidationError::ValueTooLarge`] is returned.
    #[allow(clippy::new_ret_no_self)]
    pub fn new(row: u8, column: u8) -> (r: Result<Self, ValidationError>)
        ensures
            r is Ok <==> row < ROWS_SIZE && column < COLUMN_SIZE,
            r matches Ok(location) ==> location.row == row && location.column == column,
            row >= ROWS_SIZE ==> (r matches Err(
                ValidationError::ValueTooLarge { name, value, limit, inclusive },
            ) && name@ == "row"@ && value == row && limit == ROWS_SIZE && !inclusive),
            row < ROWS_SIZE && column >= COLUMN_SIZE ==> (r matches Err(
                ValidationError::ValueTooLarge { name, value, limit, inclusive },
            ) && name@ == "column"@ && value == column && limit == COLUMN_SIZE && !inclusive),
    {
        if row >= ROWS_SIZE as u8 {
            return Err(
                ValidationError::ValueTooLarge {
                    name: "row",
                    value: row,
                    limit: ROWS_SIZE as u8,
                    inclusive: false,
                },
            );
        }
        if column >= COLUMN_SIZE as u8 {
            return Err(
                ValidationError::ValueTooLarge {
                    name: "column",
                    value: column,
                    limit: COLUMN_SIZE as u8,
                    inclusive: false,
                },
            );
        }
        Ok(LedLocation { row, column })
    }
}

impl Default for LedLocation {
    /// Row 0, column 0.
    fn default() -> (l: Self)
        ensures
            l.row == 0 && l.column == 0,
    {
        LedLocation { row: 0, column: 0 }
    }
}

} // verus!
