use vstd::prelude::*;

verus! {

/// Number of rows of the display RAM.
pub const ROWS_SIZE: usize = 16;

/// Number of LED columns addressed by one display RAM row.
pub const COLUMN_SIZE: usize = 8;

} // verus!
