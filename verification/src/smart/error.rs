//! The failures that the registry reports.

use vstd::prelude::*;

verus! {

/// Why an operation on a house or a room did not succeed.
#[derive(Debug, PartialEq, Eq)]
pub enum SmartError {
    /// A room or a device with this name is already registered.
    DuplicateName(String),
    /// A failure raised while a report was being made, with its description.
    Propagated(String),
}

} // verus!
