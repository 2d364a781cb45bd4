//! The ways in which the library's operations fail.

use vstd::prelude::*;
use vstd::string::StringExecFns;

verus! {

/// Why an export could not be built.
#[derive(Debug, Clone, Copy, PartialEq, Eq, Structural)]
pub enum ExportError {
    /// The export would draw more identifiers than a 32-bit counter holds.
    IdentifiersExhausted,
}

impl ExportError {
    /// A sentence that says what went wrong.
    pub fn message(&self) -> (r: String)
        ensures
            r@ == "the export needs more identifiers than a 32-bit counter holds"@,
    {
        String::from_str("the export needs more identifiers than a 32-bit counter holds")
    }
}

/// Why a path could not be rewritten.
#[derive(Debug, Clone, Copy, PartialEq, Eq, Structural)]
pub enum PathError {
    /// The path does not lie under the base it was to be made relative to.
    OutsideBase,
}

impl PathError {
    /// A sentence that says what went wrong.
    pub fn message(&self) -> (r: String)
        ensures
            r@ == "the path does not lie under the base path"@,
    {
        String::from_str("the path does not lie under the base path")
    }
}

} // verus!
