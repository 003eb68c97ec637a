//! Driver types for the HT16K33 LED matrix controller, and a mock of its
//! I2C interface that models the display RAM.
use vstd::prelude::*;

pub mod constants;
pub mod errors;
pub mod i2c_mock;
pub mod types;

pub use constants::{COLUMN_SIZE, ROWS_SIZE};
pub use errors::ValidationError;
pub use i2c_mock::{I2cMock, I2cMockError, Operation, Unsupported};
pub use types::dimming::Dimming;
pub use types::display::Display;
pub use types::display_data::DisplayData;
pub use types::display_data_address::DisplayDataAddress;
pub use types::led_location::LedLocation;
pub use types::oscillator::Oscillator;

verus! {

} // verus!
