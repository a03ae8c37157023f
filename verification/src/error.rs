//! The ways in which a requested workload can be refused.

use vstd::prelude::*;
use vstd::string::StringExecFns;

verus! {

/// A configuration that is refused before anything touches a backend.
#[derive(Clone, Copy, Debug, PartialEq, Eq, Structural)]
pub enum WorkloadError {
    /// The nesting depth was zero; documents have at least one level.
    InvalidDepth,
    /// The ratio of the dominant operation to the other one has no
    /// denominator: the rarer operation was requested zero times.
    ZeroDenominator,
}

impl WorkloadError {
    /// What the message of each error says.
    pub open spec fn message_text(self) -> Seq<char> {
        match self {
            WorkloadError::InvalidDepth => "invalid configuration: depth must be at least 1"@,
            WorkloadError::ZeroDenominator =>
                "invalid configuration: the ratio denominator must not be zero"@,
        }
    }

    /// A sentence for the operator.
    pub fn message(&self) -> (text: String)
        ensures
            text@ == self.message_text(),
    {
        match self {
            WorkloadError::InvalidDepth => String::from_str(
                "invalid configuration: depth must be at least 1",
            ),
            WorkloadError::ZeroDenominator => String::from_str(
                "invalid configuration: the ratio denominator must not be zero",
            ),
        }
    }
}

} // verus!
