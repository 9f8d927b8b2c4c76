use vstd::prelude::*;

verus! {

/// The opportunities expected of a player in the coming season: a base of 200, half of
/// last year's opportunities and a tenth of those of the year before, the fraction of an
/// opportunity dropped.
pub open spec fn expected_opportunities(last_year: int, two_years_ago: int) -> int {
    (2000 + 5 * last_year + two_years_ago) / 10
}

/// Forecasts the playing time of the coming season from the two seasons before it.
/// A season that was not played counts as no opportunities.
pub fn forecast_opportunities(last_year: u32, two_years_ago: u32) -> (expected: u32)
    ensures
        expected == expected_opportunities(last_year as int, two_years_ago as int),
{
    let tenths: u64 = 2000 + 5 * (last_year as u64) + two_years_ago as u64;
    (tenths / 10) as u32
}

/// How a projection is scaled for the player's age.
#[derive(Clone, Copy, Debug)]
pub enum AgeAdjustment {
    /// The age is unknown or the peak age itself: nothing changes.
    Unchanged,
    /// The player is `years` past the peak age.
    Decline { years: u8 },
    /// The player is `years` short of the peak age.
    Improve { years: u8 },
}

impl AgeAdjustment {
    /// The adjustment for a player of `age` where the peak is `peak_age`.
    pub open spec fn of(peak_age: u8, age: Option<u8>) -> AgeAdjustment {
        match age {
            Some(age) => if peak_age < age {
                AgeAdjustment::Decline { years: (age - peak_age) as u8 }
            } else if peak_age > age {
                AgeAdjustment::Improve { years: (peak_age - age) as u8 }
            } else {
                AgeAdjustment::Unchanged
            },
            None => AgeAdjustment::Unchanged,
        }
    }

    pub fn new(peak_age: u8, age: Option<u8>) -> (adjustment: Self)
        ensures
            adjustment == AgeAdjustment::of(peak_age, age),
    {
        match age {
            Some(age) => if peak_age < age {
                AgeAdjustment::Decline { years: age - peak_age }
            } else if peak_age > age {
                AgeAdjustment::Improve { years: peak_age - age }
            } else {
                AgeAdjustment::Unchanged
            },
            None => AgeAdjustment::Unchanged,
        }
    }

    /// The factor in thousandths: three thousandths less for each year past the peak, six
    /// thousandths more for each year short of it.
    pub open spec fn thousandths(self) -> int {
        match self {
            AgeAdjustment::Unchanged => 1000,
            AgeAdjustment::Decline { years } => 1000 - 3 * years,
            AgeAdjustment::Improve { years } => 1000 + 6 * years,
        }
    }

    /// The factor by which the rate statistics are multiplied, in thousandths.
    pub fn per_mille(&self) -> (factor: u16)
        ensures
            factor == self.thousandths(),
            235 <= factor <= 2530,
    {
        match self {
            AgeAdjustment::Unchanged => 1000,
            AgeAdjustment::Decline { years } => 1000 - 3 * (*years as u16),
            AgeAdjustment::Improve { years } => 1000 + 6 * (*years as u16),
        }
    }
}

} // verus!
