use crate::databank::{
    BattingSeason, LoadError, PitchingSeason, Players, PlayersView, RawBattingSeason,
    RawPitchingSeason,
};
use crate::error::ProjectionError;
use crate::history::{
    batting_ids, batting_names, id_views, lists_each_once, pitching_ids, pitching_names,
};
use crate::league::{
    batting_fault_between, batting_league, pitching_fault_between, pitching_league,
};
use crate::plan::{
    batting_plan, batting_plan_ids, pitching_plan, pitching_plan_ids, register_of, BattingPlan,
    PitchingPlan,
};
use crate::register::{People, PeopleRegister};
use crate::totals::{
    batting_in_year, batting_in_years, batting_total, pitching_in_year, pitching_in_years,
    pitching_total,
};
use vstd::prelude::*;

verus! {

/// The settings and the data of a projection run, as mathematical values.
pub struct CapuchinView {
    /// The age at which players are taken to be at their best.
    pub peak_age: u8,
    /// The plate appearances at league rates that a batter is regressed with.
    pub batter_regress: int,
    /// The outs at league rates that a pitcher is regressed with.
    pub starter_regress: int,
    /// The outs at league rates set for relievers. Every pitcher is regressed as a starter,
    /// so no plan holds it.
    pub reliever_regress: int,
    /// The number of years that a batting projection looks back: the length of the
    /// batters' weight vector.
    pub batter_years: nat,
    /// The number of years that a pitching projection looks back.
    pub pitcher_years: nat,
    pub register: Option<Seq<PeopleRegister>>,
    pub players: PlayersView,
}

impl CapuchinView {
    /// The batting seasons that a projection of `year` looks back on: those of the
    /// `batter_years` years before it.
    pub open spec fn batting_window(self, year: u16) -> Seq<BattingSeason> {
        if self.batter_years == 0 || self.batter_years > year {
            Seq::empty()
        } else {
            self.players.batting.filter(
                batting_in_years((year - self.batter_years) as u16, (year - 1) as u16),
            )
        }
    }

    /// What stands in the way of a batting projection of `year`, if anything does: a window
    /// that reaches before year zero, or else the fault of the earliest year of the window
    /// that has one.
    pub open spec fn batting_fault(self, year: u16) -> Option<ProjectionError> {
        if self.batter_years > year {
            Some(ProjectionError::WindowBeforeYearZero)
        } else {
            batting_fault_between(self.batting_window(year), year - self.batter_years, year as int)
        }
    }

    /// The pitching seasons that a projection of `year` looks back on: those of the
    /// `pitcher_years` years before it.
    pub open spec fn pitching_window(self, year: u16) -> Seq<PitchingSeason> {
        if self.pitcher_years == 0 || self.pitcher_years > year {
            Seq::empty()
        } else {
            self.players.pitching.filter(
                pitching_in_years((year - self.pitcher_years) as u16, (year - 1) as u16),
            )
        }
    }

    /// What stands in the way of a pitching projection of `year`, if anything does: a window
    /// that reaches before year zero, or else the fault of the earliest year of the window
    /// that has one.
    pub open spec fn pitching_fault(self, year: u16) -> Option<ProjectionError> {
        if self.pitcher_years > year {
            Some(ProjectionError::WindowBeforeYearZero)
        } else {
            pitching_fault_between(
                self.pitching_window(year),
                year - self.pitcher_years,
                year as int,
            )
        }
    }
}

/// A projection run: its settings, the identity register if one was loaded, and the
/// seasons that were loaded.
pub struct Capuchin {
    peak_age: u8,
    batter_regress: u16,
    starter_regress: u32,
    reliever_regress: u32,
    batter_years: usize,
    pitcher_years: usize,
    people: Option<People>,
    players: Players,
}

impl View for Capuchin {
    type V = CapuchinView;

    closed spec fn view(&self) -> CapuchinView {
        CapuchinView {
            peak_age: self.peak_age,
            batter_regress: self.batter_regress as int,
            starter_regress: self.starter_regress as int,
            reliever_regress: self.reliever_regress as int,
            batter_years: self.batter_years as nat,
            pitcher_years: self.pitcher_years as nat,
            register: register_of(self.people),
            players: self.players@,
        }
    }
}

impl Capuchin {
    /// A run without data. The regression of pitchers is given in innings and kept in
    /// outs; `batter_years` and `pitcher_years` are the lengths of the weight vectors.
    pub fn new(
        peak_age: u8,
        batter_regress: u16,
        starter_regress: u16,
        reliever_regress: u16,
        batter_years: usize,
        pitcher_years: usize,
    ) -> (run: Self)
        ensures
            run@ == (CapuchinView {
                peak_age,
                batter_regress: batter_regress as int,
                starter_regress: 3 * starter_regress,
                reliever_regress: 3 * reliever_regress,
                batter_years: batter_years as nat,
                pitcher_years: pitcher_years as nat,
                register: None,
                players: PlayersView::empty(),
            }),
    {
        Capuchin {
            peak_age,
            batter_regress,
            starter_regress: 3 * (starter_regress as u32),
            reliever_regress: 3 * (reliever_regress as u32),
            batter_years,
            pitcher_years,
            people: None,
            players: Players::new(),
        }
    }

    /// Takes the identity register from which ages are read.
    pub fn load_register(&mut self, people: People)
        ensures
            final(self)@ == (CapuchinView { register: Some(people@), ..old(self)@ }),
    {
        self.people = Some(people);
    }

    /// Loads the rows of a batting table in order, up to the first that cannot be taken in.
    pub fn load_batting(&mut self, rows: Vec<RawBattingSeason>) -> (loaded: Result<(), LoadError>)
        ensures
            loaded == old(self)@.players.batting_load(rows@),
            final(self)@ == (CapuchinView {
                players: old(self)@.players.after_batting_load(rows@),
                ..old(self)@
            }),
    {
        self.players.load_batting(rows)
    }

    /// Loads the rows of a pitching table in order, up to the first that cannot be taken in.
    pub fn load_pitching(&mut self, rows: Vec<RawPitchingSeason>) -> (loaded: Result<
        (),
        LoadError,
    >)
        ensures
            loaded == old(self)@.players.pitching_load(rows@),
            final(self)@ == (CapuchinView {
                players: old(self)@.players.after_pitching_load(rows@),
                ..old(self)@
            }),
    {
        self.players.load_pitching(rows)
    }

    /// Remove players playing out of position. This counts batters pitching and pitchers
    /// batting.
    pub fn remove_out_of_position_players(&mut self)
        ensures
            final(self)@ == (CapuchinView {
                players: old(self)@.players.in_position(),
                ..old(self)@
            }),
    {
        self.players.remove_out_of_position_players();
    }

    /// Plans the batting projections of `year`: one plan for each player with a batting
    /// season in the window, in ascending order of the players' identities.
    pub fn batting_projection(&self, year: u16) -> (plans: Result<
        Vec<BattingPlan>,
        ProjectionError,
    >)
        ensures
            match plans {
                Ok(plans) => {
                    &&& self@.batting_fault(year) is None
                    &&& lists_each_once(
                        batting_plan_ids(plans@),
                        batting_names(self@.batting_window(year)),
                    )
                    &&& forall|i: int|
                        0 <= i < plans.len() ==> (#[trigger] plans[i]).follows(
                            self@.batting_window(year),
                            self@.register,
                            year,
                            self@.batter_years as int,
                            self@.batter_regress,
                            self@.peak_age,
                        )
                },
                Err(fault) => self@.batting_fault(year) == Some(fault),
            },
    {
        if self.batter_years > year as usize {
            return Err(ProjectionError::WindowBeforeYearZero);
        }
        let window: u16 = self.batter_years as u16;
        let mut plans: Vec<BattingPlan> = Vec::new();
        if window == 0 {
            proof {
                assert(batting_plan_ids(plans@) == Seq::<Seq<char>>::empty());
            }
            return Ok(plans);
        }
        let start_year: u16 = year - window;
        let past = self.players.batting_seasons(start_year, year - 1);
        let league = match batting_league(&past, start_year, year) {
            Ok(league) => league,
            Err(fault) => {
                return Err(fault);
            },
        };
        let ids = batting_ids(&past);
        let mut i: usize = 0;
        while i < ids.len()
            invariant
                i <= ids.len(),
                1 <= window <= year,
                window == self@.batter_years,
                past@.unref() == self@.batting_window(year),
                league.len() == window,
                batting_fault_between(past@.unref(), year - window, year as int) is None,
                forall|k: int|
                    0 <= k < league.len() ==> (#[trigger] league[k])@ == batting_total(
                        past@.unref().filter(batting_in_year((year - window + k) as u16)),
                    ),
                batting_plan_ids(plans@) == id_views(ids@).take(i as int),
                forall|j: int|
                    0 <= j < plans.len() ==> (#[trigger] plans[j]).follows(
                        self@.batting_window(year),
                        self@.register,
                        year,
                        self@.batter_years as int,
                        self@.batter_regress,
                        self@.peak_age,
                    ),
            decreases ids.len() - i,
        {
            let ghost had = plans@;
            let plan = batting_plan(
                &past,
                &league,
                &self.people,
                ids[i].clone(),
                year,
                window,
                self.batter_regress as u32,
                self.peak_age,
            );
            plans.push(plan);
            proof {
                assert(batting_plan_ids(plans@) == batting_plan_ids(had).push(ids[i as int]@));
                assert(id_views(ids@).take(i + 1) == id_views(ids@).take(i as int).push(
                    ids[i as int]@,
                ));
                assert forall|j: int| 0 <= j < plans.len() implies (#[trigger] plans[j]).follows(
                    self@.batting_window(year),
                    self@.register,
                    year,
                    self@.batter_years as int,
                    self@.batter_regress,
                    self@.peak_age,
                ) by {
                    if j < had.len() {
                        assert(plans[j] == had[j]);
                    }
                }
            }
            i += 1;
        }
        proof {
            assert(id_views(ids@).take(i as int) == id_views(ids@));
        }
        Ok(plans)
    }

    /// Plans the pitching projections of `year`: one plan for each player with a pitching
    /// season in the window, in ascending order of the players' identities.
    pub fn pitching_projection(&self, year: u16) -> (plans: Result<
        Vec<PitchingPlan>,
        ProjectionError,
    >)
        ensures
            match plans {
                Ok(plans) => {
                    &&& self@.pitching_fault(year) is None
                    &&& lists_each_once(
                        pitching_plan_ids(plans@),
                        pitching_names(self@.pitching_window(year)),
                    )
                    &&& forall|i: int|
                        0 <= i < plans.len() ==> (#[trigger] plans[i]).follows(
                            self@.pitching_window(year),
                            self@.register,
                            year,
                            self@.pitcher_years as int,
                            self@.starter_regress,
                            self@.peak_age,
                        )
                },
                Err(fault) => self@.pitching_fault(year) == Some(fault),
            },
    {
        if self.pitcher_years > year as usize {
            return Err(ProjectionError::WindowBeforeYearZero);
        }
        let window: u16 = self.pitcher_years as u16;
        let mut plans: Vec<PitchingPlan> = Vec::new();
        if window == 0 {
            proof {
                assert(pitching_plan_ids(plans@) == Seq::<Seq<char>>::empty());
            }
            return Ok(plans);
        }
        let start_year: u16 = year - window;
        let past = self.players.pitching_seasons(start_year, year - 1);
        let league = match pitching_league(&past, start_year, year) {
            Ok(league) => league,
            Err(fault) => {
                return Err(fault);
            },
        };
        let ids = pitching_ids(&past);
        let mut i: usize = 0;
        while i < ids.len()
            invariant
                i <= ids.len(),
                1 <= window <= year,
                window == self@.pitcher_years,
                past@.unref() == self@.pitching_window(year),
                league.len() == window,
                pitching_fault_between(past@.unref(), year - window, year as int) is None,
                forall|k: int|
                    0 <= k < league.len() ==> (#[trigger] league[k])@ == pitching_total(
                        past@.unref().filter(pitching_in_year((year - window + k) as u16)),
                    ),
                pitching_plan_ids(plans@) == id_views(ids@).take(i as int),
                forall|j: int|
                    0 <= j < plans.len() ==> (#[trigger] plans[j]).follows(
                        self@.pitching_window(year),
                        self@.register,
                        year,
                        self@.pitcher_years as int,
                        self@.starter_regress,
                        self@.peak_age,
                    ),
            decreases ids.len() - i,
        {
            let ghost had = plans@;
            let plan = pitching_plan(
                &past,
                &league,
                &self.people,
                ids[i].clone(),
                year,
                window,
                self.starter_regress as u32,
                self.peak_age,
            );
            plans.push(plan);
            proof {
                assert(pitching_plan_ids(plans@) == pitching_plan_ids(had).push(ids[i as int]@));
                assert(id_views(ids@).take(i + 1) == id_views(ids@).take(i as int).push(
                    ids[i as int]@,
                ));
                assert forall|j: int| 0 <= j < plans.len() implies (#[trigger] plans[j]).follows(
                    self@.pitching_window(year),
                    self@.register,
                    year,
                    self@.pitcher_years as int,
                    self@.starter_regress,
                    self@.peak_age,
                ) by {
                    if j < had.len() {
                        assert(plans[j] == had[j]);
                    }
                }
            }
            i += 1;
        }
        proof {
            assert(id_views(ids@).take(i as int) == id_views(ids@));
        }
        Ok(plans)
    }
}

} // verus!
