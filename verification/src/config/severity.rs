//! How seriously a violated rule is reported.
use vstd::prelude::*;

verus! {

/// Severity level for lint rules.
#[derive(Debug, Clone, Copy, PartialEq, Eq, Structural)]
pub enum Severity {
    /// Prints a warning but does not fail the check.
    Warn,
    /// Fails the check.
    Error,
}

impl Default for Severity {
    fn default() -> (r: Self)
        ensures
            r == Severity::Warn,
    {
        Severity::Warn
    }
}

} // verus!
