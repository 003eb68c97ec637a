//! Value types of the HT16K33 command set.
pub mod dimming;
pub mod display;
pub mod display_data;
pub mod display_data_address;
pub mod led_location;
pub mod oscillator;
