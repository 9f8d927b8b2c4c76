use vstd::prelude::*;

verus! {

/// Why no projection can be made for a year.
#[derive(Clone, Copy, Debug)]
pub enum ProjectionError {
    /// The years to look back reach before year zero.
    WindowBeforeYearZero,
    /// The league's totals of `year` pass the limit of a summary's counter.
    CounterOverflow { year: u16 },
    /// The seasons of `year` hold no opportunity at all, so the league has no rates for it.
    NoLeagueOpportunities { year: u16 },
}

} // verus!
