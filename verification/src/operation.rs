//! The operations of the calculator, each with the name it is asked for by
//! and the number of arguments it takes.

use crate::text::same_text;
use vstd::prelude::*;

verus! {

/// One of the four calculations.
#[derive(Clone, Copy, Debug, PartialEq, Eq, Structural)]
pub enum Operation {
    /// Converts a power level between milliwatts and dBm.
    PowerConversion,
    /// The loss over a free-space path, from frequency and distance.
    PathLoss,
    /// The range of a link, from transmitter power, receiver sensitivity
    /// and frequency.
    LinkRange,
    /// How many times further a new distance is than the current one.
    TimesFurther,
}

impl Operation {
    /// The name the operation is asked for by.
    pub open spec fn name_text(self) -> Seq<char> {
        match self {
            Operation::PowerConversion => "power_conversion"@,
            Operation::PathLoss => "path_loss"@,
            Operation::LinkRange => "link_range"@,
            Operation::TimesFurther => "times_further"@,
        }
    }

    /// The operation that `name` asks for, if it asks for one.
    pub open spec fn named(name: Seq<char>) -> Option<Operation> {
        if name == Operation::PowerConversion.name_text() {
            Some(Operation::PowerConversion)
        } else if name == Operation::PathLoss.name_text() {
            Some(Operation::PathLoss)
        } else if name == Operation::LinkRange.name_text() {
            Some(Operation::LinkRange)
        } else if name == Operation::TimesFurther.name_text() {
            Some(Operation::TimesFurther)
        } else {
            None
        }
    }

    /// The number of arguments the operation takes.
    pub open spec fn arity(self) -> nat {
        match self {
            Operation::PowerConversion => 1,
            Operation::PathLoss => 2,
            Operation::LinkRange => 3,
            Operation::TimesFurther => 2,
        }
    }

    /// The name the operation is asked for by.
    pub fn name(&self) -> (r: &'static str)
        ensures
            r@ == self.name_text(),
    {
        match self {
            Operation::PowerConversion => "power_conversion",
            Operation::PathLoss => "path_loss",
            Operation::LinkRange => "link_range",
            Operation::TimesFurther => "times_further",
        }
    }

    /// Finds the operation that `name` asks for. Names are matched exactly.
    pub fn from_name(name: &str) -> (r: Option<Operation>)
        ensures
            r == Operation::named(name@),
    {
        if same_text(name, "power_conversion") {
            Some(Operation::PowerConversion)
        } else if same_text(name, "path_loss") {
            Some(Operation::PathLoss)
        } else if same_text(name, "link_range") {
            Some(Operation::LinkRange)
        } else if same_text(name, "times_further") {
            Some(Operation::TimesFurther)
        } else {
            None
        }
    }

    /// The number of arguments the operation takes.
    pub fn argument_count(&self) -> (r: usize)
        ensures
            r == self.arity(),
    {
        match self {
            Operation::PowerConversion => 1,
            Operation::PathLoss => 2,
            Operation::LinkRange => 3,
            Operation::TimesFurther => 2,
        }
    }
}

/// Every operation is found again under its own name, so no two operations
/// share a name.
pub proof fn lemma_found_by_own_name(op: Operation)
    ensures
        Operation::named(op.name_text()) == Some(op),
{
    reveal_strlit("power_conversion");
    reveal_strlit("path_loss");
    reveal_strlit("link_range");
    reveal_strlit("times_further");
    assert("power_conversion"@.len() == 16);
    assert("path_loss"@.len() == 9);
    assert("link_range"@.len() == 10);
    assert("times_further"@.len() == 13);
}

} // verus!
