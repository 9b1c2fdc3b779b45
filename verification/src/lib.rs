//! Input handling for a radio link-budget calculator: the power notation
//! (`10mW`, `-3 dBm`), the decimal numbers it carries, and the operations
//! the calculator offers.

pub mod error;
pub mod number;
pub mod operation;
pub mod power;
pub mod text;
