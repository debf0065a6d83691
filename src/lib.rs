//! Daily congestion-toll computation: per-crossing fees from a time-of-day
//! table, weekend and holiday exemptions, hourly merging and a daily cap.

pub mod calendar;
pub mod fees;
pub mod holidays;
pub mod laws;
pub mod vehicle;

use vstd::prelude::*;

verus! {

/// Entry point of the toll rules; it holds no state.
#[derive(Clone, Copy, Debug, PartialEq, Eq, Structural)]
pub struct TollCalculator;

} // verus!
