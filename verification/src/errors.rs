use vstd::prelude::*;

verus! {

/// Errors of validating a value against the limits of the device.
#[derive(Clone, Copy, Debug)]
pub enum ValidationError {
    /// The value `value` of `name` is above `limit` (or at `limit`, when `inclusive` is false).
    ValueTooLarge { name: &'static str, value: u8, limit: u8, inclusive: bool },
}

} // verus!
