//! The ways in which reading an input can fail.

use vstd::prelude::*;

verus! {

/// Why an input was turned down.
#[derive(Clone, Copy, Debug, PartialEq, Eq, Structural)]
pub enum ConversionError {
    /// The input ends with neither of the two units.
    InvalidUnit,
    /// What stands before the unit is not a number.
    ParseError,
}

impl ConversionError {
    /// The text shown to the user for this error.
    pub open spec fn message_text(self) -> Seq<char> {
        match self {
            ConversionError::InvalidUnit =>
                "Invalid input. Please enter a valid value followed by its unit (mW or dBm)."@,
            ConversionError::ParseError =>
                "Invalid input. The value before the unit could not be read as a number."@,
        }
    }

    /// The text shown to the user for this error.
    pub fn message(&self) -> (r: &'static str)
        ensures
            r@ == self.message_text(),
    {
        match self {
            ConversionError::InvalidUnit => {
                "Invalid input. Please enter a valid value followed by its unit (mW or dBm)."
            },
            ConversionError::ParseError => {
                "Invalid input. The value before the unit could not be read as a number."
            },
        }
    }
}

} // verus!
