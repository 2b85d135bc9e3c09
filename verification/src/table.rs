//! Shared table types.
use vstd::prelude::*;

verus! {

/// Time Period for grouping usages
#[derive(Clone, Copy, Debug, PartialEq, Eq, Structural)]
pub enum Period {
    /// Hour
    Hour,
    /// Day
    Day,
    /// Week
    Week,
    /// Month
    Month,
    /// Year
    Year,
}

} // verus!
