use crate::databank::{
    BattingCounts, BattingSeason, BattingSeasonSummary, PitchingCounts, PitchingSeason,
    PitchingSeasonSummary,
};
use crate::forecast::{expected_opportunities, forecast_opportunities, AgeAdjustment};
use crate::history::{batting_year_of, pitching_year_of};
use crate::league::{
    batting_fault_between, lemma_batting_no_fault, lemma_pitching_no_fault,
    pitching_fault_between,
};
use crate::register::{known_age, person_of_bbref, People, PeopleRegister};
use crate::totals::{
    batting_by_between, batting_by_in, batting_in_year, batting_total,
    lemma_batting_total_by_year, lemma_batting_total_narrower, lemma_batting_total_non_negative,
    lemma_chosen_narrower, lemma_none_chosen, lemma_pitching_total_by_year,
    lemma_pitching_total_narrower, lemma_pitching_total_non_negative, pitching_by_between,
    pitching_by_in, pitching_in_year, pitching_total,
};
use vstd::prelude::*;

verus! {

/// The rows of a register that may be missing.
pub open spec fn register_of(people: Option<People>) -> Option<Seq<PeopleRegister>> {
    match people {
        Some(register) => Some(register@),
        None => None,
    }
}

/// The age of a player by the end of `season` as far as the register, if there is one,
/// can tell it.
pub open spec fn age_on_register(
    register: Option<Seq<PeopleRegister>>,
    playerid: Seq<char>,
    season: u16,
) -> Option<u8> {
    match register {
        Some(people) => known_age(person_of_bbref(people, playerid), season),
        None => None,
    }
}

/// One year of a batter's history as a plan holds it, in mathematical integers.
pub struct BatterYearView {
    pub year: u16,
    pub years_back: int,
    pub own: BattingCounts,
    pub league: BattingCounts,
}

/// One year of a batter's history: what the player did, what the whole league did, and how
/// many years before the projected year it lies. The weight of the year is the one that
/// stands at `years_back - 1` in the weight vector.
#[derive(Clone, Copy, Debug)]
pub struct BatterYear {
    pub year: u16,
    pub years_back: u16,
    pub own: BattingSeasonSummary,
    pub league: BattingSeasonSummary,
}

impl View for BatterYear {
    type V = BatterYearView;

    open spec fn view(&self) -> BatterYearView {
        BatterYearView {
            year: self.year,
            years_back: self.years_back as int,
            own: self.own@,
            league: self.league@,
        }
    }
}

/// The years from `from` up to, and without, `upto` in which the player has a batting stint
/// among `past`, the earliest first, each with the player's total and the league's.
pub open spec fn batter_years(
    past: Seq<BattingSeason>,
    playerid: Seq<char>,
    from: int,
    upto: int,
    target: int,
) -> Seq<BatterYearView>
    decreases upto - from,
{
    if from >= upto {
        Seq::empty()
    } else {
        let earlier = batter_years(past, playerid, from, upto - 1, target);
        let year = (upto - 1) as u16;
        let own = past.filter(batting_by_in(playerid, year));
        if own.len() > 0 {
            earlier.push(
                BatterYearView {
                    year,
                    years_back: target - year,
                    own: batting_total(own),
                    league: batting_total(past.filter(batting_in_year(year))),
                },
            )
        } else {
            earlier
        }
    }
}

/// The player's plate appearances of the year that lies `back` years before `target`, as
/// far as the window of `window` years reaches; none beyond it.
pub open spec fn batting_pa_back(
    past: Seq<BattingSeason>,
    playerid: Seq<char>,
    target: u16,
    window: int,
    back: int,
) -> int {
    if 1 <= back <= window && back <= target {
        batting_total(past.filter(batting_by_in(playerid, (target - back) as u16))).pa
    } else {
        0
    }
}

/// What the projection of one batter starts from: the history to blend, the playing time
/// to prorate to, the size of the league anchor and the adjustment for age.
#[derive(Debug)]
pub struct BattingPlan {
    pub playerid: String,
    /// The year that is projected.
    pub year: u16,
    /// The seasons of the window that the player has, the earliest first.
    pub seasons: Vec<BatterYear>,
    /// The forecast of the year's plate appearances.
    pub projected_pa: u32,
    /// The plate appearances at league rates that the player's record is regressed with.
    pub regress: u32,
    pub age: Option<u8>,
    pub adjustment: AgeAdjustment,
}

impl BattingPlan {
    /// The seasons of the plan in mathematical integers.
    pub open spec fn years(&self) -> Seq<BatterYearView> {
        self.seasons@.map_values(|y: BatterYear| y@)
    }

    /// The plan is the one that the seasons `past` of the window, the register and the
    /// settings give for its player.
    pub open spec fn follows(
        &self,
        past: Seq<BattingSeason>,
        register: Option<Seq<PeopleRegister>>,
        target: u16,
        window: int,
        regress: int,
        peak_age: u8,
    ) -> bool {
        &&& self.year == target
        &&& self.years() == batter_years(
            past,
            self.playerid@,
            target - window,
            target as int,
            target as int,
        )
        &&& self.projected_pa == expected_opportunities(
            batting_pa_back(past, self.playerid@, target, window, 1),
            batting_pa_back(past, self.playerid@, target, window, 2),
        )
        &&& self.regress == regress
        &&& self.age == age_on_register(register, self.playerid@, target)
        &&& self.adjustment == AgeAdjustment::of(peak_age, self.age)
    }
}

/// The players of a list of plans, plan by plan.
pub open spec fn batting_plan_ids(plans: Seq<BattingPlan>) -> Seq<Seq<char>> {
    plans.map_values(|plan: BattingPlan| plan.playerid@)
}

/// Draws up the plan of one batter from the seasons of the window and the league's totals
/// of its years.
pub(crate) fn batting_plan(
    past: &Vec<&BattingSeason>,
    league: &Vec<BattingSeasonSummary>,
    people: &Option<People>,
    playerid: String,
    target: u16,
    window: u16,
    regress: u32,
    peak_age: u8,
) -> (plan: BattingPlan)
    requires
        1 <= window <= target,
        league.len() == window,
        batting_fault_between(past@.unref(), target - window, target as int) is None,
        forall|k: int|
            0 <= k < league.len() ==> (#[trigger] league[k])@ == batting_total(
                past@.unref().filter(batting_in_year((target - window + k) as u16)),
            ),
    ensures
        plan.playerid == playerid,
        plan.follows(
            past@.unref(),
            register_of(*people),
            target,
            window as int,
            regress as int,
            peak_age,
        ),
{
    let start: u16 = target - window;
    let mut seasons: Vec<BatterYear> = Vec::new();
    let mut last_year: u32 = 0;
    let mut two_years_ago: u32 = 0;
    let mut year: u16 = start;
    while year < target
        invariant
            start == target - window,
            1 <= window <= target,
            start <= year <= target,
            league.len() == window,
            batting_fault_between(past@.unref(), target - window, target as int) is None,
            forall|k: int|
                0 <= k < league.len() ==> (#[trigger] league[k])@ == batting_total(
                    past@.unref().filter(batting_in_year((target - window + k) as u16)),
                ),
            seasons@.map_values(|y: BatterYear| y@) == batter_years(
                past@.unref(),
                playerid@,
                start as int,
                year as int,
                target as int,
            ),
            last_year == (if year == target {
                batting_pa_back(past@.unref(), playerid@, target, window as int, 1)
            } else {
                0
            }),
            two_years_ago == (if year + 1 >= target {
                batting_pa_back(past@.unref(), playerid@, target, window as int, 2)
            } else {
                0
            }),
        decreases target - year,
    {
        proof {
            lemma_batting_no_fault(past@.unref(), target - window, target as int, year as int);
        }
        let ghost had = seasons@.map_values(|y: BatterYear| y@);
        let years_back: u16 = target - year;
        match batting_year_of(past, &playerid, year) {
            Some(own) => {
                let league_total = league[(year - start) as usize];
                let entry = BatterYear { year, years_back, own, league: league_total };
                seasons.push(entry);
                proof {
                    assert(seasons@.map_values(|y: BatterYear| y@) == had.push(entry@));
                }
                if years_back == 1 {
                    last_year = own.pa;
                } else if years_back == 2 {
                    two_years_ago = own.pa;
                }
            },
            None => {
                proof {
                    assert(seasons@.map_values(|y: BatterYear| y@) == had);
                    assert(past@.unref().filter(batting_by_in(playerid@, year)) == Seq::<
                        BattingSeason,
                    >::empty());
                }
            },
        }
        year += 1;
    }
    let age = match people {
        Some(register) => register.age_of(playerid.as_str(), target),
        None => None,
    };
    BattingPlan {
        playerid,
        year: target,
        seasons,
        projected_pa: forecast_opportunities(last_year, two_years_ago),
        regress,
        age,
        adjustment: AgeAdjustment::new(peak_age, age),
    }
}

/// The seasons of a plan are sound. Each lies in the window, so a weight stands for it;
/// the years ascend; the player's total is part of the league's; and where no year of the
/// window has a fault, the league has plate appearances in the year, so its rates exist.
pub proof fn lemma_batter_years_sound(
    past: Seq<BattingSeason>,
    playerid: Seq<char>,
    from: int,
    upto: int,
    target: int,
)
    requires
        0 <= from,
        upto <= target <= u16::MAX,
    ensures
        forall|k: int|
            0 <= k < batter_years(past, playerid, from, upto, target).len() ==> {
                let season = #[trigger] batter_years(past, playerid, from, upto, target)[k];
                &&& from <= season.year < upto
                &&& 1 <= season.years_back == target - season.year
                &&& past.filter(batting_by_in(playerid, season.year)).len() > 0
                &&& season.own == batting_total(past.filter(batting_by_in(playerid, season.year)))
                &&& season.league == batting_total(past.filter(batting_in_year(season.year)))
                &&& season.own.at_most(season.league)
                &&& batting_fault_between(past, from, upto) is None ==> season.league.fits()
                    && season.league.pa > 0
            },
        forall|j: int, k: int|
            0 <= j < k < batter_years(past, playerid, from, upto, target).len() ==> batter_years(
                past,
                playerid,
                from,
                upto,
                target,
            )[j].year < batter_years(past, playerid, from, upto, target)[k].year,
    decreases upto - from,
{
    if from < upto {
        let earlier = batter_years(past, playerid, from, upto - 1, target);
        let all = batter_years(past, playerid, from, upto, target);
        let year = (upto - 1) as u16;
        lemma_batter_years_sound(past, playerid, from, upto - 1, target);
        lemma_batting_total_narrower(past, batting_by_in(playerid, year), batting_in_year(year));
        lemma_chosen_narrower(past, batting_by_in(playerid, year), batting_in_year(year));
        lemma_batting_total_non_negative(past.filter(batting_in_year(year)));
        assert forall|k: int| 0 <= k < all.len() implies {
            let season = #[trigger] all[k];
            &&& from <= season.year < upto
            &&& 1 <= season.years_back == target - season.year
            &&& past.filter(batting_by_in(playerid, season.year)).len() > 0
            &&& season.own == batting_total(past.filter(batting_by_in(playerid, season.year)))
            &&& season.league == batting_total(past.filter(batting_in_year(season.year)))
            &&& season.own.at_most(season.league)
            &&& batting_fault_between(past, from, upto) is None ==> season.league.fits()
                && season.league.pa > 0
        } by {
            if k < earlier.len() {
                assert(all[k] == earlier[k]);
            }
        }
        assert forall|j: int, k: int| 0 <= j < k < all.len() implies all[j].year
            < all[k].year by {
            assert(all[j] == earlier[j]);
            if k < earlier.len() {
                assert(all[k] == earlier[k]);
            }
        }
    }
}

/// What the player did in the seasons of a plan, summed.
pub open spec fn batter_years_total(years: Seq<BatterYearView>) -> BattingCounts
    decreases years.len(),
{
    if years.len() == 0 {
        BattingCounts::zero()
    } else {
        batter_years_total(years.drop_last()).plus(years.last().own)
    }
}

/// Nothing is lost between the stints and the plan: the seasons of a plan add up to the
/// total of the stints that the player has in the years of the window.
pub proof fn lemma_batter_years_total(
    past: Seq<BattingSeason>,
    playerid: Seq<char>,
    from: int,
    upto: int,
    target: int,
)
    requires
        0 <= from,
        upto <= u16::MAX + 1,
    ensures
        batter_years_total(batter_years(past, playerid, from, upto, target)) == batting_total(
            past.filter(batting_by_between(playerid, from, upto)),
        ),
    decreases upto - from,
{
    if from >= upto {
        lemma_none_chosen(past, batting_by_between(playerid, from, upto));
    } else {
        let earlier = batter_years(past, playerid, from, upto - 1, target);
        let all = batter_years(past, playerid, from, upto, target);
        let own = past.filter(batting_by_in(playerid, (upto - 1) as u16));
        lemma_batter_years_total(past, playerid, from, upto - 1, target);
        lemma_batting_total_by_year(past, playerid, from, upto);
        if own.len() > 0 {
            assert(all.drop_last() == earlier);
        }
    }
}

/// A plan that follows from a window without a fault can be carried out: each of its
/// seasons has a weight, since it lies from one to `window` years back, and the league
/// has rates for it, since it had plate appearances in the year. No player did more than
/// the league.
pub proof fn lemma_batting_plan_usable(
    plan: BattingPlan,
    past: Seq<BattingSeason>,
    register: Option<Seq<PeopleRegister>>,
    target: u16,
    window: int,
    regress: int,
    peak_age: u8,
)
    requires
        0 <= window <= target,
        batting_fault_between(past, target - window, target as int) is None,
        plan.follows(past, register, target, window, regress, peak_age),
    ensures
        forall|k: int|
            0 <= k < plan.seasons.len() ==> {
                let season = #[trigger] plan.seasons[k];
                &&& 1 <= season.years_back <= window
                &&& season.year + season.years_back == target
                &&& season.league.pa > 0
                &&& season.own@.at_most(season.league@)
            },
{
    lemma_batter_years_sound(past, plan.playerid@, target - window, target as int, target as int);
    assert forall|k: int| 0 <= k < plan.seasons.len() implies {
        let season = #[trigger] plan.seasons[k];
        &&& 1 <= season.years_back <= window
        &&& season.year + season.years_back == target
        &&& season.league.pa > 0
        &&& season.own@.at_most(season.league@)
    } by {
        assert(plan.years()[k] == plan.seasons[k]@);
    }
}

/// A player without a batting stint in a range of years has no season there.
pub proof fn lemma_batter_years_none(
    past: Seq<BattingSeason>,
    playerid: Seq<char>,
    from: int,
    upto: int,
    target: int,
)
    requires
        0 <= from,
        upto <= u16::MAX + 1,
        forall|year: int|
            from <= year < upto ==> (#[trigger] past.filter(
                batting_by_in(playerid, year as u16),
            )).len() == 0,
    ensures
        batter_years(past, playerid, from, upto, target) == Seq::<BatterYearView>::empty(),
    decreases upto - from,
{
    if from < upto {
        lemma_batter_years_none(past, playerid, from, upto - 1, target);
        assert(past.filter(batting_by_in(playerid, (upto - 1) as u16)).len() == 0);
    }
}

/// A player whose batting stints of a range of years all lie in one year has that year for
/// the only season, and what the season holds of the player is the total of those stints
/// and nothing else.
pub proof fn lemma_batter_years_single(
    past: Seq<BattingSeason>,
    playerid: Seq<char>,
    from: int,
    upto: int,
    target: int,
    only: u16,
)
    requires
        0 <= from <= only < upto <= u16::MAX + 1,
        past.filter(batting_by_in(playerid, only)).len() > 0,
        forall|year: int|
            from <= year < upto && year != only ==> (#[trigger] past.filter(
                batting_by_in(playerid, year as u16),
            )).len() == 0,
    ensures
        batter_years(past, playerid, from, upto, target) == seq![
            BatterYearView {
                year: only,
                years_back: target - only,
                own: batting_total(past.filter(batting_by_in(playerid, only))),
                league: batting_total(past.filter(batting_in_year(only))),
            },
        ],
    decreases upto - from,
{
    if only == upto - 1 {
        lemma_batter_years_none(past, playerid, from, upto - 1, target);
    } else {
        lemma_batter_years_single(past, playerid, from, upto - 1, target, only);
        assert(past.filter(batting_by_in(playerid, (upto - 1) as u16)).len() == 0);
    }
}

/// One year of a pitcher's history as a plan holds it, in mathematical integers.
pub struct PitcherYearView {
    pub year: u16,
    pub years_back: int,
    pub own: PitchingCounts,
    pub league: PitchingCounts,
}

/// One year of a pitcher's history: what the player did, what the whole league did, and how
/// many years before the projected year it lies. The weight of the year is the one that
/// stands at `years_back - 1` in the weight vector.
#[derive(Clone, Copy, Debug)]
pub struct PitcherYear {
    pub year: u16,
    pub years_back: u16,
    pub own: PitchingSeasonSummary,
    pub league: PitchingSeasonSummary,
}

impl View for PitcherYear {
    type V = PitcherYearView;

    open spec fn view(&self) -> PitcherYearView {
        PitcherYearView {
            year: self.year,
            years_back: self.years_back as int,
            own: self.own@,
            league: self.league@,
        }
    }
}

/// The years from `from` up to, and without, `upto` in which the player has a pitching stint
/// among `past`, the earliest first, each with the player's total and the league's.
pub open spec fn pitcher_years(
    past: Seq<PitchingSeason>,
    playerid: Seq<char>,
    from: int,
    upto: int,
    target: int,
) -> Seq<PitcherYearView>
    decreases upto - from,
{
    if from >= upto {
        Seq::empty()
    } else {
        let earlier = pitcher_years(past, playerid, from, upto - 1, target);
        let year = (upto - 1) as u16;
        let own = past.filter(pitching_by_in(playerid, year));
        if own.len() > 0 {
            earlier.push(
                PitcherYearView {
                    year,
                    years_back: target - year,
                    own: pitching_total(own),
                    league: pitching_total(past.filter(pitching_in_year(year))),
                },
            )
        } else {
            earlier
        }
    }
}

/// The player's outs of the year that lies `back` years before `target`, as far as the
/// window of `window` years reaches; none beyond it.
pub open spec fn pitching_ipouts_back(
    past: Seq<PitchingSeason>,
    playerid: Seq<char>,
    target: u16,
    window: int,
    back: int,
) -> int {
    if 1 <= back <= window && back <= target {
        pitching_total(past.filter(pitching_by_in(playerid, (target - back) as u16))).ipouts
    } else {
        0
    }
}

/// What the projection of one pitcher starts from: the history to blend, the playing time
/// to prorate to, the size of the league anchor and the adjustment for age.
#[derive(Debug)]
pub struct PitchingPlan {
    pub playerid: String,
    /// The year that is projected.
    pub year: u16,
    /// The seasons of the window that the player has, the earliest first.
    pub seasons: Vec<PitcherYear>,
    /// The forecast of the year's outs.
    pub projected_ipouts: u32,
    /// The outs at league rates that the player's record is regressed with.
    pub regress: u32,
    pub age: Option<u8>,
    pub adjustment: AgeAdjustment,
}

impl PitchingPlan {
    /// The seasons of the plan in mathematical integers.
    pub open spec fn years(&self) -> Seq<PitcherYearView> {
        self.seasons@.map_values(|y: PitcherYear| y@)
    }

    /// The plan is the one that the seasons `past` of the window, the register and the
    /// settings give for its player.
    pub open spec fn follows(
        &self,
        past: Seq<PitchingSeason>,
        register: Option<Seq<PeopleRegister>>,
        target: u16,
        window: int,
        regress: int,
        peak_age: u8,
    ) -> bool {
        &&& self.year == target
        &&& self.years() == pitcher_years(
            past,
            self.playerid@,
            target - window,
            target as int,
            target as int,
        )
        &&& self.projected_ipouts == expected_opportunities(
            pitching_ipouts_back(past, self.playerid@, target, window, 1),
            pitching_ipouts_back(past, self.playerid@, target, window, 2),
        )
        &&& self.regress == regress
        &&& self.age == age_on_register(register, self.playerid@, target)
        &&& self.adjustment == AgeAdjustment::of(peak_age, self.age)
    }
}

/// The players of a list of plans, plan by plan.
pub open spec fn pitching_plan_ids(plans: Seq<PitchingPlan>) -> Seq<Seq<char>> {
    plans.map_values(|plan: PitchingPlan| plan.playerid@)
}

/// Draws up the plan of one pitcher from the seasons of the window and the league's totals
/// of its years.
pub(crate) fn pitching_plan(
    past: &Vec<&PitchingSeason>,
    league: &Vec<PitchingSeasonSummary>,
    people: &Option<People>,
    playerid: String,
    target: u16,
    window: u16,
    regress: u32,
    peak_age: u8,
) -> (plan: PitchingPlan)
    requires
        1 <= window <= target,
        league.len() == window,
        pitching_fault_between(past@.unref(), target - window, target as int) is None,
        forall|k: int|
            0 <= k < league.len() ==> (#[trigger] league[k])@ == pitching_total(
                past@.unref().filter(pitching_in_year((target - window + k) as u16)),
            ),
    ensures
        plan.playerid == playerid,
        plan.follows(
            past@.unref(),
            register_of(*people),
            target,
            window as int,
            regress as int,
            peak_age,
        ),
{
    let start: u16 = target - window;
    let mut seasons: Vec<PitcherYear> = Vec::new();
    let mut last_year: u32 = 0;
    let mut two_years_ago: u32 = 0;
    let mut year: u16 = start;
    while year < target
        invariant
            start == target - window,
            1 <= window <= target,
            start <= year <= target,
            league.len() == window,
            pitching_fault_between(past@.unref(), target - window, target as int) is None,
            forall|k: int|
                0 <= k < league.len() ==> (#[trigger] league[k])@ == pitching_total(
                    past@.unref().filter(pitching_in_year((target - window + k) as u16)),
                ),
            seasons@.map_values(|y: PitcherYear| y@) == pitcher_years(
                past@.unref(),
                playerid@,
                start as int,
                year as int,
                target as int,
            ),
            last_year == (if year == target {
                pitching_ipouts_back(past@.unref(), playerid@, target, window as int, 1)
            } else {
                0
            }),
            two_years_ago == (if year + 1 >= target {
                pitching_ipouts_back(past@.unref(), playerid@, target, window as int, 2)
            } else {
                0
            }),
        decreases target - year,
    {
        proof {
            lemma_pitching_no_fault(past@.unref(), target - window, target as int, year as int);
        }
        let ghost had = seasons@.map_values(|y: PitcherYear| y@);
        let years_back: u16 = target - year;
        match pitching_year_of(past, &playerid, year) {
            Some(own) => {
                let league_total = league[(year - start) as usize];
                let entry = PitcherYear { year, years_back, own, league: league_total };
                seasons.push(entry);
                proof {
                    assert(seasons@.map_values(|y: PitcherYear| y@) == had.push(entry@));
                }
                if years_back == 1 {
                    last_year = own.ipouts;
                } else if years_back == 2 {
                    two_years_ago = own.ipouts;
                }
            },
            None => {
                proof {
                    assert(seasons@.map_values(|y: PitcherYear| y@) == had);
                    assert(past@.unref().filter(pitching_by_in(playerid@, year)) == Seq::<
                        PitchingSeason,
                    >::empty());
                }
            },
        }
        year += 1;
    }
    let age = match people {
        Some(register) => register.age_of(playerid.as_str(), target),
        None => None,
    };
    PitchingPlan {
        playerid,
        year: target,
        seasons,
        projected_ipouts: forecast_opportunities(last_year, two_years_ago),
        regress,
        age,
        adjustment: AgeAdjustment::new(peak_age, age),
    }
}

/// The seasons of a plan are sound. Each lies in the window, so a weight stands for it;
/// the years ascend; the player's total is part of the league's; and where no year of the
/// window has a fault, the league has outs in the year, so its rates exist.
pub proof fn lemma_pitcher_years_sound(
    past: Seq<PitchingSeason>,
    playerid: Seq<char>,
    from: int,
    upto: int,
    target: int,
)
    requires
        0 <= from,
        upto <= target <= u16::MAX,
    ensures
        forall|k: int|
            0 <= k < pitcher_years(past, playerid, from, upto, target).len() ==> {
                let season = #[trigger] pitcher_years(past, playerid, from, upto, target)[k];
                &&& from <= season.year < upto
                &&& 1 <= season.years_back == target - season.year
                &&& past.filter(pitching_by_in(playerid, season.year)).len() > 0
                &&& season.own == pitching_total(past.filter(pitching_by_in(playerid, season.year)))
                &&& season.league == pitching_total(past.filter(pitching_in_year(season.year)))
                &&& season.own.at_most(season.league)
                &&& pitching_fault_between(past, from, upto) is None ==> season.league.fits()
                    && season.league.ipouts > 0
            },
        forall|j: int, k: int|
            0 <= j < k < pitcher_years(past, playerid, from, upto, target).len() ==> pitcher_years(
                past,
                playerid,
                from,
                upto,
                target,
            )[j].year < pitcher_years(past, playerid, from, upto, target)[k].year,
    decreases upto - from,
{
    if from < upto {
        let earlier = pitcher_years(past, playerid, from, upto - 1, target);
        let all = pitcher_years(past, playerid, from, upto, target);
        let year = (upto - 1) as u16;
        lemma_pitcher_years_sound(past, playerid, from, upto - 1, target);
        lemma_pitching_total_narrower(past, pitching_by_in(playerid, year), pitching_in_year(year));
        lemma_chosen_narrower(past, pitching_by_in(playerid, year), pitching_in_year(year));
        lemma_pitching_total_non_negative(past.filter(pitching_in_year(year)));
        assert forall|k: int| 0 <= k < all.len() implies {
            let season = #[trigger] all[k];
            &&& from <= season.year < upto
            &&& 1 <= season.years_back == target - season.year
            &&& past.filter(pitching_by_in(playerid, season.year)).len() > 0
            &&& season.own == pitching_total(past.filter(pitching_by_in(playerid, season.year)))
            &&& season.league == pitching_total(past.filter(pitching_in_year(season.year)))
            &&& season.own.at_most(season.league)
            &&& pitching_fault_between(past, from, upto) is None ==> season.league.fits()
                && season.league.ipouts > 0
        } by {
            if k < earlier.len() {
                assert(all[k] == earlier[k]);
            }
        }
        assert forall|j: int, k: int| 0 <= j < k < all.len() implies all[j].year
            < all[k].year by {
            assert(all[j] == earlier[j]);
            if k < earlier.len() {
                assert(all[k] == earlier[k]);
            }
        }
    }
}

/// What the player did in the seasons of a plan, summed.
pub open spec fn pitcher_years_total(years: Seq<PitcherYearView>) -> PitchingCounts
    decreases years.len(),
{
    if years.len() == 0 {
        PitchingCounts::zero()
    } else {
        pitcher_years_total(years.drop_last()).plus(years.last().own)
    }
}

/// Nothing is lost between the stints and the plan: the seasons of a plan add up to the
/// total of the stints that the player has in the years of the window.
pub proof fn lemma_pitcher_years_total(
    past: Seq<PitchingSeason>,
    playerid: Seq<char>,
    from: int,
    upto: int,
    target: int,
)
    requires
        0 <= from,
        upto <= u16::MAX + 1,
    ensures
        pitcher_years_total(pitcher_years(past, playerid, from, upto, target)) == pitching_total(
            past.filter(pitching_by_between(playerid, from, upto)),
        ),
    decreases upto - from,
{
    if from >= upto {
        lemma_none_chosen(past, pitching_by_between(playerid, from, upto));
    } else {
        let earlier = pitcher_years(past, playerid, from, upto - 1, target);
        let all = pitcher_years(past, playerid, from, upto, target);
        let own = past.filter(pitching_by_in(playerid, (upto - 1) as u16));
        lemma_pitcher_years_total(past, playerid, from, upto - 1, target);
        lemma_pitching_total_by_year(past, playerid, from, upto);
        if own.len() > 0 {
            assert(all.drop_last() == earlier);
        }
    }
}

/// A plan that follows from a window without a fault can be carried out: each of its
/// seasons has a weight, since it lies from one to `window` years back, and the league
/// has rates for it, since it had outs in the year. No player did more than the league.
pub proof fn lemma_pitching_plan_usable(
    plan: PitchingPlan,
    past: Seq<PitchingSeason>,
    register: Option<Seq<PeopleRegister>>,
    target: u16,
    window: int,
    regress: int,
    peak_age: u8,
)
    requires
        0 <= window <= target,
        pitching_fault_between(past, target - window, target as int) is None,
        plan.follows(past, register, target, window, regress, peak_age),
    ensures
        forall|k: int|
            0 <= k < plan.seasons.len() ==> {
                let season = #[trigger] plan.seasons[k];
                &&& 1 <= season.years_back <= window
                &&& season.year + season.years_back == target
                &&& season.league.ipouts > 0
                &&& season.own@.at_most(season.league@)
            },
{
    lemma_pitcher_years_sound(past, plan.playerid@, target - window, target as int, target as int);
    assert forall|k: int| 0 <= k < plan.seasons.len() implies {
        let season = #[trigger] plan.seasons[k];
        &&& 1 <= season.years_back <= window
        &&& season.year + season.years_back == target
        &&& season.league.ipouts > 0
        &&& season.own@.at_most(season.league@)
    } by {
        assert(plan.years()[k] == plan.seasons[k]@);
    }
}

/// A player without a pitching stint in a range of years has no season there.
pub proof fn lemma_pitcher_years_none(
    past: Seq<PitchingSeason>,
    playerid: Seq<char>,
    from: int,
    upto: int,
    target: int,
)
    requires
        0 <= from,
        upto <= u16::MAX + 1,
        forall|year: int|
            from <= year < upto ==> (#[trigger] past.filter(
                pitching_by_in(playerid, year as u16),
            )).len() == 0,
    ensures
        pitcher_years(past, playerid, from, upto, target) == Seq::<PitcherYearView>::empty(),
    decreases upto - from,
{
    if from < upto {
        lemma_pitcher_years_none(past, playerid, from, upto - 1, target);
        assert(past.filter(pitching_by_in(playerid, (upto - 1) as u16)).len() == 0);
    }
}

/// A player whose pitching stints of a range of years all lie in one year has that year for
/// the only season, and what the season holds of the player is the total of those stints
/// and nothing else.
pub proof fn lemma_pitcher_years_single(
    past: Seq<PitchingSeason>,
    playerid: Seq<char>,
    from: int,
    upto: int,
    target: int,
    only: u16,
)
    requires
        0 <= from <= only < upto <= u16::MAX + 1,
        past.filter(pitching_by_in(playerid, only)).len() > 0,
        forall|year: int|
            from <= year < upto && year != only ==> (#[trigger] past.filter(
                pitching_by_in(playerid, year as u16),
            )).len() == 0,
    ensures
        pitcher_years(past, playerid, from, upto, target) == seq![
            PitcherYearView {
                year: only,
                years_back: target - only,
                own: pitching_total(past.filter(pitching_by_in(playerid, only))),
                league: pitching_total(past.filter(pitching_in_year(only))),
            },
        ],
    decreases upto - from,
{
    if only == upto - 1 {
        lemma_pitcher_years_none(past, playerid, from, upto - 1, target);
    } else {
        lemma_pitcher_years_single(past, playerid, from, upto - 1, target, only);
        assert(past.filter(pitching_by_in(playerid, (upto - 1) as u16)).len() == 0);
    }
}

} // verus!
