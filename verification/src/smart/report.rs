//! The capability of making a report from a house.

use vstd::prelude::*;
use crate::smart::error::SmartError;
use crate::smart::location::SmartHouse;

verus! {

/// A way of turning a house into a piece of text.
///
/// The reporter reads the house (its name, its rooms and, through each room,
/// the names of its devices) and builds whatever text it likes. What it
/// returns, text or failure, is for the implementer to define.
pub trait Reportable {
    /// Makes the report for `house`.
    fn make(&self, house: &SmartHouse) -> Result<String, SmartError>;
}

} // verus!
