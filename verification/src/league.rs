use crate::databank::{BattingSeason, BattingSeasonSummary, PitchingSeason, PitchingSeasonSummary};
use crate::error::ProjectionError;
use crate::totals::{
    batting_in_year, batting_total, lemma_batting_total_chosen_prefix, lemma_batting_total_push,
    lemma_pitching_total_chosen_prefix, lemma_pitching_total_push, pitching_in_year,
    pitching_total,
};
use vstd::prelude::*;

verus! {

/// What stands in the way of batting rates of the league for `year`, if anything does: a
/// total that no counter holds, or seasons without a single plate appearance. A year
/// without any season is no fault: nobody needs its rates.
pub open spec fn batting_year_fault(past: Seq<BattingSeason>, year: u16) -> Option<
    ProjectionError,
> {
    let in_year = past.filter(batting_in_year(year));
    if !batting_total(in_year).fits() {
        Some(ProjectionError::CounterOverflow { year })
    } else if in_year.len() > 0 && batting_total(in_year).pa == 0 {
        Some(ProjectionError::NoLeagueOpportunities { year })
    } else {
        None
    }
}

/// The fault of the earliest year from `from` up to, and without, `upto` that has one.
pub open spec fn batting_fault_between(past: Seq<BattingSeason>, from: int, upto: int) -> Option<
    ProjectionError,
>
    decreases upto - from,
{
    if from >= upto {
        None
    } else {
        match batting_fault_between(past, from, upto - 1) {
            Some(fault) => Some(fault),
            None => batting_year_fault(past, (upto - 1) as u16),
        }
    }
}

/// What stands in the way of pitching rates of the league for `year`, if anything does.
pub open spec fn pitching_year_fault(past: Seq<PitchingSeason>, year: u16) -> Option<
    ProjectionError,
> {
    let in_year = past.filter(pitching_in_year(year));
    if !pitching_total(in_year).fits() {
        Some(ProjectionError::CounterOverflow { year })
    } else if in_year.len() > 0 && pitching_total(in_year).ipouts == 0 {
        Some(ProjectionError::NoLeagueOpportunities { year })
    } else {
        None
    }
}

/// The fault of the earliest year from `from` up to, and without, `upto` that has one.
pub open spec fn pitching_fault_between(past: Seq<PitchingSeason>, from: int, upto: int) -> Option<
    ProjectionError,
>
    decreases upto - from,
{
    if from >= upto {
        None
    } else {
        match pitching_fault_between(past, from, upto - 1) {
            Some(fault) => Some(fault),
            None => pitching_year_fault(past, (upto - 1) as u16),
        }
    }
}

/// Where no year of a range has a fault, no year in it has one.
pub proof fn lemma_batting_no_fault(past: Seq<BattingSeason>, from: int, upto: int, year: int)
    requires
        batting_fault_between(past, from, upto) is None,
        from <= year < upto,
    ensures
        batting_year_fault(past, year as u16) is None,
    decreases upto - from,
{
    if year < upto - 1 {
        lemma_batting_no_fault(past, from, upto - 1, year);
    }
}

/// Where no year of a range has a fault, no year in it has one.
pub proof fn lemma_pitching_no_fault(past: Seq<PitchingSeason>, from: int, upto: int, year: int)
    requires
        pitching_fault_between(past, from, upto) is None,
        from <= year < upto,
    ensures
        pitching_year_fault(past, year as u16) is None,
    decreases upto - from,
{
    if year < upto - 1 {
        lemma_pitching_no_fault(past, from, upto - 1, year);
    }
}

/// Sums every batting stint of `year` into the league's total of that year.
pub fn batting_league_year(past: &Vec<&BattingSeason>, year: u16) -> (league: Result<
    BattingSeasonSummary,
    ProjectionError,
>)
    ensures
        match league {
            Ok(total) => {
                &&& batting_year_fault(past@.unref(), year) is None
                &&& total@ == batting_total(past@.unref().filter(batting_in_year(year)))
            },
            Err(fault) => batting_year_fault(past@.unref(), year) == Some(fault),
        },
{
    let ghost all = past@.unref();
    let ghost chosen = batting_in_year(year);
    let mut total = BattingSeasonSummary::new();
    let mut any = false;
    let mut i: usize = 0;
    proof {
        reveal(Seq::filter);
        assert(all.take(0).filter(chosen) == Seq::<BattingSeason>::empty());
    }
    while i < past.len()
        invariant
            i <= past.len(),
            all == past@.unref(),
            chosen == batting_in_year(year),
            total@ == batting_total(all.take(i as int).filter(chosen)),
            any == (all.take(i as int).filter(chosen).len() > 0),
        decreases past.len() - i,
    {
        let season = past[i];
        proof {
            assert(all.take(i + 1) == all.take(i as int).push(*season));
            all.take(i as int).lemma_filter_push(*season, chosen);
        }
        if season.yearid == year {
            proof {
                lemma_batting_total_push(all.take(i as int).filter(chosen), *season);
            }
            if !total.accepts(season) {
                proof {
                    lemma_batting_total_chosen_prefix(all, chosen, i + 1);
                }
                return Err(ProjectionError::CounterOverflow { year });
            }
            total.mut_add_season(season);
            any = true;
        }
        i += 1;
    }
    proof {
        assert(all.take(i as int) == all);
    }
    if any && total.pa == 0 {
        return Err(ProjectionError::NoLeagueOpportunities { year });
    }
    Ok(total)
}

/// Sums every pitching stint of `year` into the league's total of that year.
pub fn pitching_league_year(past: &Vec<&PitchingSeason>, year: u16) -> (league: Result<
    PitchingSeasonSummary,
    ProjectionError,
>)
    ensures
        match league {
            Ok(total) => {
                &&& pitching_year_fault(past@.unref(), year) is None
                &&& total@ == pitching_total(past@.unref().filter(pitching_in_year(year)))
            },
            Err(fault) => pitching_year_fault(past@.unref(), year) == Some(fault),
        },
{
    let ghost all = past@.unref();
    let ghost chosen = pitching_in_year(year);
    let mut total = PitchingSeasonSummary::new();
    let mut any = false;
    let mut i: usize = 0;
    proof {
        reveal(Seq::filter);
        assert(all.take(0).filter(chosen) == Seq::<PitchingSeason>::empty());
    }
    while i < past.len()
        invariant
            i <= past.len(),
            all == past@.unref(),
            chosen == pitching_in_year(year),
            total@ == pitching_total(all.take(i as int).filter(chosen)),
            any == (all.take(i as int).filter(chosen).len() > 0),
        decreases past.len() - i,
    {
        let season = past[i];
        proof {
            assert(all.take(i + 1) == all.take(i as int).push(*season));
            all.take(i as int).lemma_filter_push(*season, chosen);
        }
        if season.yearid == year {
            proof {
                lemma_pitching_total_push(all.take(i as int).filter(chosen), *season);
            }
            if !total.accepts(season) {
                proof {
                    lemma_pitching_total_chosen_prefix(all, chosen, i + 1);
                }
                return Err(ProjectionError::CounterOverflow { year });
            }
            total.mut_add_season(season);
            any = true;
        }
        i += 1;
    }
    proof {
        assert(all.take(i as int) == all);
    }
    if any && total.ipouts == 0 {
        return Err(ProjectionError::NoLeagueOpportunities { year });
    }
    Ok(total)
}

/// The league's batting totals of each year from `start_year` up to, and without,
/// `target_year`, the earliest year first; none where `start_year` is no earlier year. It
/// fails with the fault of the earliest year that has one.
pub fn batting_league(past: &Vec<&BattingSeason>, start_year: u16, target_year: u16) -> (league:
    Result<Vec<BattingSeasonSummary>, ProjectionError>)
    ensures
        match league {
            Ok(totals) => {
                &&& batting_fault_between(past@.unref(), start_year as int, target_year as int)
                    is None
                &&& totals.len() == (if start_year <= target_year {
                    target_year - start_year
                } else {
                    0
                })
                &&& forall|k: int|
                    0 <= k < totals.len() ==> (#[trigger] totals[k])@ == batting_total(
                        past@.unref().filter(batting_in_year((start_year + k) as u16)),
                    )
            },
            Err(fault) => batting_fault_between(
                past@.unref(),
                start_year as int,
                target_year as int,
            ) == Some(fault),
        },
{
    let mut totals: Vec<BattingSeasonSummary> = Vec::new();
    if start_year > target_year {
        return Ok(totals);
    }
    let mut year: u16 = start_year;
    while year < target_year
        invariant
            start_year <= year <= target_year,
            batting_fault_between(past@.unref(), start_year as int, year as int) is None,
            totals.len() == year - start_year,
            forall|k: int|
                0 <= k < totals.len() ==> (#[trigger] totals[k])@ == batting_total(
                    past@.unref().filter(batting_in_year((start_year + k) as u16)),
                ),
        decreases target_year - year,
    {
        match batting_league_year(past, year) {
            Ok(total) => {
                totals.push(total);
            },
            Err(fault) => {
                proof {
                    lemma_batting_fault_stays(
                        past@.unref(),
                        start_year as int,
                        year + 1,
                        target_year as int,
                    );
                }
                return Err(fault);
            },
        }
        year += 1;
    }
    Ok(totals)
}

/// The league's pitching totals of each year from `start_year` up to, and without,
/// `target_year`, the earliest year first; none where `start_year` is no earlier year. It
/// fails with the fault of the earliest year that has one.
pub fn pitching_league(past: &Vec<&PitchingSeason>, start_year: u16, target_year: u16) -> (league:
    Result<Vec<PitchingSeasonSummary>, ProjectionError>)
    ensures
        match league {
            Ok(totals) => {
                &&& pitching_fault_between(past@.unref(), start_year as int, target_year as int)
                    is None
                &&& totals.len() == (if start_year <= target_year {
                    target_year - start_year
                } else {
                    0
                })
                &&& forall|k: int|
                    0 <= k < totals.len() ==> (#[trigger] totals[k])@ == pitching_total(
                        past@.unref().filter(pitching_in_year((start_year + k) as u16)),
                    )
            },
            Err(fault) => pitching_fault_between(
                past@.unref(),
                start_year as int,
                target_year as int,
            ) == Some(fault),
        },
{
    let mut totals: Vec<PitchingSeasonSummary> = Vec::new();
    if start_year > target_year {
        return Ok(totals);
    }
    let mut year: u16 = start_year;
    while year < target_year
        invariant
            start_year <= year <= target_year,
            pitching_fault_between(past@.unref(), start_year as int, year as int) is None,
            totals.len() == year - start_year,
            forall|k: int|
                0 <= k < totals.len() ==> (#[trigger] totals[k])@ == pitching_total(
                    past@.unref().filter(pitching_in_year((start_year + k) as u16)),
                ),
        decreases target_year - year,
    {
        match pitching_league_year(past, year) {
            Ok(total) => {
                totals.push(total);
            },
            Err(fault) => {
                proof {
                    lemma_pitching_fault_stays(
                        past@.unref(),
                        start_year as int,
                        year + 1,
                        target_year as int,
                    );
                }
                return Err(fault);
            },
        }
        year += 1;
    }
    Ok(totals)
}

/// A fault found in a range of years is the fault of every longer range from the same
/// start.
pub proof fn lemma_batting_fault_stays(past: Seq<BattingSeason>, from: int, upto: int, later: int)
    requires
        batting_fault_between(past, from, upto) is Some,
        upto <= later,
    ensures
        batting_fault_between(past, from, later) == batting_fault_between(past, from, upto),
    decreases later - upto,
{
    if upto < later {
        lemma_batting_fault_stays(past, from, upto, later - 1);
    }
}

/// A fault found in a range of years is the fault of every longer range from the same
/// start.
pub proof fn lemma_pitching_fault_stays(
    past: Seq<PitchingSeason>,
    from: int,
    upto: int,
    later: int,
)
    requires
        pitching_fault_between(past, from, upto) is Some,
        upto <= later,
    ensures
        pitching_fault_between(past, from, later) == pitching_fault_between(past, from, upto),
    decreases later - upto,
{
    if upto < later {
        lemma_pitching_fault_stays(past, from, upto, later - 1);
    }
}

} // verus!
