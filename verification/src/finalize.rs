use crate::identity::{id_before, id_less, ids_ascending};
use crate::plan::{batting_plan_ids, pitching_plan_ids, BattingPlan, PitchingPlan};
use vstd::prelude::*;

verus! {

/// The quotient `n / d` rounded to the nearest integer, a half going away from zero.
pub open spec fn rounded_quotient(n: int, d: int) -> int
    recommends
        d > 0,
{
    if n >= 0 {
        (2 * n + d) / (2 * d)
    } else {
        -((2 * (-n) + d) / (2 * d))
    }
}

/// Rounding goes to a nearest integer: the rounded quotient is at most half a unit away
/// from the exact one. It takes the sign of the numerator with it.
pub proof fn lemma_rounded_quotient_is_nearest(n: int, d: int)
    requires
        d > 0,
    ensures
        -d <= 2 * (rounded_quotient(n, d) * d - n) <= d,
        rounded_quotient(-n, d) == -rounded_quotient(n, d),
{
    let m = if n >= 0 {
        n
    } else {
        -n
    };
    let q = (2 * m + d) / (2 * d);
    assert(0 <= (2 * m + d) - q * (2 * d) < 2 * d && q >= 0) by (nonlinear_arith)
        requires
            d > 0,
            m >= 0,
            q == (2 * m + d) / (2 * d),
    ;
    assert(q * (2 * d) == 2 * (q * d)) by (nonlinear_arith);
    assert((-q) * d == -(q * d)) by (nonlinear_arith);
    if n == 0 {
        assert(q == 0) by (nonlinear_arith)
            requires
                d > 0,
                q == d / (2 * d),
        ;
    }
}

/// Innings pitched for a number of outs: a third of them, rounded.
pub open spec fn innings_of(outs: int) -> int {
    rounded_quotient(outs, 3)
}

/// The earned run average in hundredths of a run: nine times the earned runs for each
/// inning, rounded. Without an inning there is none.
pub open spec fn era_hundredths(er: int, ip: int) -> Option<int> {
    if ip > 0 {
        Some(rounded_quotient(900 * er, ip))
    } else {
        None
    }
}

/// The counting statistics of a batting projection, rounded to whole numbers.
#[derive(Clone, Copy, Debug)]
pub struct RoundedBatting {
    pub r: i32,
    pub h: i32,
    pub double: i32,
    pub triple: i32,
    pub hr: i32,
    pub rbi: i32,
    pub sb: i32,
    pub cs: i32,
    pub bb: i32,
    pub so: i32,
    pub ibb: i32,
    pub hbp: i32,
    pub sh: i32,
    pub sf: i32,
    pub gidp: i32,
}

/// The counting statistics of a pitching projection, rounded to whole numbers.
#[derive(Clone, Copy, Debug)]
pub struct RoundedPitching {
    pub w: i32,
    pub l: i32,
    pub sv: i32,
    pub h: i32,
    pub r: i32,
    pub er: i32,
    pub hr: i32,
    pub so: i32,
    pub bb: i32,
    pub ibb: i32,
    pub hbp: i32,
    pub wp: i32,
    pub bk: i32,
}

impl RoundedBatting {
    /// The plate appearances that are no at bat: walks, hit by pitch and both kinds of
    /// sacrifice.
    pub open spec fn not_at_bat(self) -> int {
        self.bb + self.hbp + self.sf + self.sh
    }
}

/// A finished batting projection as a mathematical value.
pub struct BattingProjectionView {
    pub playerid: Seq<char>,
    pub age: Option<u8>,
    pub year: u16,
    pub pa: int,
    pub ab: int,
    pub stats: RoundedBatting,
}

/// A finished pitching projection as a mathematical value.
pub struct PitchingProjectionView {
    pub playerid: Seq<char>,
    pub age: Option<u8>,
    pub year: u16,
    pub ip: int,
    pub era: Option<int>,
    pub stats: RoundedPitching,
}

impl BattingProjectionView {
    /// The projection of a plan's player with these rounded statistics: the plate
    /// appearances are the forecast ones, and the at bats are what the rounded statistics
    /// leave of them.
    pub open spec fn of(plan: BattingPlan, rounded: RoundedBatting) -> BattingProjectionView {
        BattingProjectionView {
            playerid: plan.playerid@,
            age: plan.age,
            year: plan.year,
            pa: plan.projected_pa as int,
            ab: plan.projected_pa - rounded.not_at_bat(),
            stats: rounded,
        }
    }

    /// The at bats are the plate appearances less those that are no at bat.
    pub open spec fn consistent(self) -> bool {
        self.ab == self.pa - self.stats.not_at_bat()
    }
}

impl PitchingProjectionView {
    /// The projection of a plan's player with these rounded statistics: the innings come
    /// from the forecast outs, the earned run average from the rounded earned runs and
    /// those innings.
    pub open spec fn of(plan: PitchingPlan, rounded: RoundedPitching) -> PitchingProjectionView {
        PitchingProjectionView {
            playerid: plan.playerid@,
            age: plan.age,
            year: plan.year,
            ip: innings_of(plan.projected_ipouts as int),
            era: era_hundredths(rounded.er as int, innings_of(plan.projected_ipouts as int)),
            stats: rounded,
        }
    }

    /// The earned run average is the one that the earned runs and the innings give.
    pub open spec fn consistent(self) -> bool {
        self.era == era_hundredths(self.stats.er as int, self.ip)
    }
}

/// A finished batting projection: whole numbers that agree with each other.
#[derive(Debug)]
pub struct BattingProjection {
    playerid: String,
    age: Option<u8>,
    year: u16,
    pa: u32,
    ab: i64,
    stats: RoundedBatting,
}

/// A finished pitching projection: whole numbers that agree with each other. The earned
/// run average is held in hundredths.
#[derive(Debug)]
pub struct PitchingProjection {
    playerid: String,
    age: Option<u8>,
    year: u16,
    ip: u32,
    era: Option<i64>,
    stats: RoundedPitching,
}

impl View for BattingProjection {
    type V = BattingProjectionView;

    closed spec fn view(&self) -> BattingProjectionView {
        BattingProjectionView {
            playerid: self.playerid@,
            age: self.age,
            year: self.year,
            pa: self.pa as int,
            ab: self.ab as int,
            stats: self.stats,
        }
    }
}

impl View for PitchingProjection {
    type V = PitchingProjectionView;

    closed spec fn view(&self) -> PitchingProjectionView {
        PitchingProjectionView {
            playerid: self.playerid@,
            age: self.age,
            year: self.year,
            ip: self.ip as int,
            era: match self.era {
                Some(era) => Some(era as int),
                None => None,
            },
            stats: self.stats,
        }
    }
}

/// Divides and rounds to the nearest whole number, a half going away from zero.
pub fn round_quotient(n: i64, d: u32) -> (q: i64)
    requires
        d > 0,
        -0x2000_0000_0000_0000 <= n <= 0x2000_0000_0000_0000,
    ensures
        q == rounded_quotient(n as int, d as int),
{
    let twice: i64 = 2 * (d as i64);
    if n >= 0 {
        (2 * n + d as i64) / twice
    } else {
        -((2 * (-n) + d as i64) / twice)
    }
}

impl BattingProjection {
    #[verifier::type_invariant]
    closed spec fn agrees(&self) -> bool {
        self.ab == self.pa - self.stats.not_at_bat()
    }

    /// Finishes the projection of a plan's player from the rounded statistics. The at bats
    /// are worked out from the rounded numbers, not rounded on their own.
    pub fn finalize(plan: &BattingPlan, rounded: RoundedBatting) -> (projection: Self)
        ensures
            projection@ == BattingProjectionView::of(*plan, rounded),
            projection@.consistent(),
    {
        let not_at_bat: i64 = rounded.bb as i64 + rounded.hbp as i64 + rounded.sf as i64
            + rounded.sh as i64;
        BattingProjection {
            playerid: plan.playerid.clone(),
            age: plan.age,
            year: plan.year,
            pa: plan.projected_pa,
            ab: plan.projected_pa as i64 - not_at_bat,
            stats: rounded,
        }
    }

    pub fn playerid(&self) -> (id: &String)
        ensures
            id@ == self@.playerid,
    {
        &self.playerid
    }

    pub fn age(&self) -> (age: Option<u8>)
        ensures
            age == self@.age,
    {
        self.age
    }

    pub fn year(&self) -> (year: u16)
        ensures
            year == self@.year,
    {
        self.year
    }

    pub fn pa(&self) -> (pa: u32)
        ensures
            pa == self@.pa,
    {
        self.pa
    }

    /// The at bats: of every projection they are the plate appearances less the walks, the
    /// hit by pitch and the sacrifices.
    pub fn ab(&self) -> (ab: i64)
        ensures
            ab == self@.ab,
            self@.consistent(),
    {
        proof {
            use_type_invariant(self);
        }
        self.ab
    }

    pub fn stats(&self) -> (stats: RoundedBatting)
        ensures
            stats == self@.stats,
    {
        self.stats
    }

    /// Whether this projection stands before `other` in a list of projections.
    pub fn precedes(&self, other: &Self) -> (before: bool)
        ensures
            before == id_before(self@.playerid, other@.playerid),
    {
        id_less(self.playerid.as_str(), other.playerid.as_str())
    }
}

impl PitchingProjection {
    #[verifier::type_invariant]
    closed spec fn agrees(&self) -> bool {
        (match self.era {
            Some(era) => Some(era as int),
            None => None,
        }) == era_hundredths(self.stats.er as int, self.ip as int)
    }

    /// Finishes the projection of a plan's player from the rounded statistics. The outs
    /// become innings, and the earned run average is worked out from the rounded earned
    /// runs and those innings.
    pub fn finalize(plan: &PitchingPlan, rounded: RoundedPitching) -> (projection: Self)
        ensures
            projection@ == PitchingProjectionView::of(*plan, rounded),
            projection@.consistent(),
    {
        let innings: i64 = round_quotient(plan.projected_ipouts as i64, 3);
        proof {
            lemma_rounded_quotient_is_nearest(plan.projected_ipouts as int, 3);
        }
        let ip: u32 = innings as u32;
        let era: Option<i64> = if ip > 0 {
            Some(round_quotient(900 * (rounded.er as i64), ip))
        } else {
            None
        };
        PitchingProjection {
            playerid: plan.playerid.clone(),
            age: plan.age,
            year: plan.year,
            ip,
            era,
            stats: rounded,
        }
    }

    pub fn playerid(&self) -> (id: &String)
        ensures
            id@ == self@.playerid,
    {
        &self.playerid
    }

    pub fn age(&self) -> (age: Option<u8>)
        ensures
            age == self@.age,
    {
        self.age
    }

    pub fn year(&self) -> (year: u16)
        ensures
            year == self@.year,
    {
        self.year
    }

    pub fn ip(&self) -> (ip: u32)
        ensures
            ip == self@.ip,
    {
        self.ip
    }

    /// The earned run average in hundredths: of every projection it is the one that its
    /// earned runs and its innings give.
    pub fn era(&self) -> (era: Option<i64>)
        ensures
            era matches Some(e) ==> self@.era == Some(e as int),
            era is None ==> self@.era is None,
            self@.consistent(),
    {
        proof {
            use_type_invariant(self);
        }
        self.era
    }

    pub fn stats(&self) -> (stats: RoundedPitching)
        ensures
            stats == self@.stats,
    {
        self.stats
    }

    /// Whether this projection stands before `other` in a list of projections.
    pub fn precedes(&self, other: &Self) -> (before: bool)
        ensures
            before == id_before(self@.playerid, other@.playerid),
    {
        id_less(self.playerid.as_str(), other.playerid.as_str())
    }
}

/// The players of a list of batting projections, one by one.
pub open spec fn batting_projection_ids(list: Seq<BattingProjection>) -> Seq<Seq<char>> {
    list.map_values(|p: BattingProjection| p@.playerid)
}

/// The players of a list of pitching projections, one by one.
pub open spec fn pitching_projection_ids(list: Seq<PitchingProjection>) -> Seq<Seq<char>> {
    list.map_values(|p: PitchingProjection| p@.playerid)
}

/// Finishes the projections of a list of plans, each from the rounded statistics that
/// stand at its place in `rounded`. The list comes out in the order of the plans: sorted
/// by player where they are. Without one set of statistics for each plan there is no list.
pub fn finalize_batting(plans: &Vec<BattingPlan>, rounded: &Vec<RoundedBatting>) -> (list: Option<
    Vec<BattingProjection>,
>)
    ensures
        list is Some <==> plans.len() == rounded.len(),
        list matches Some(list) ==> {
            &&& list.len() == plans.len()
            &&& forall|i: int|
                0 <= i < list.len() ==> (#[trigger] list[i])@ == BattingProjectionView::of(
                    plans[i],
                    rounded[i],
                )
            &&& batting_projection_ids(list@) == batting_plan_ids(plans@)
            &&& ids_ascending(batting_plan_ids(plans@)) ==> ids_ascending(
                batting_projection_ids(list@),
            )
        },
{
    if plans.len() != rounded.len() {
        return None;
    }
    let mut list: Vec<BattingProjection> = Vec::new();
    let mut i: usize = 0;
    while i < plans.len()
        invariant
            i <= plans.len() == rounded.len(),
            list.len() == i,
            forall|j: int|
                0 <= j < list.len() ==> (#[trigger] list[j])@ == BattingProjectionView::of(
                    plans[j],
                    rounded[j],
                ),
        decreases plans.len() - i,
    {
        list.push(BattingProjection::finalize(&plans[i], rounded[i]));
        i += 1;
    }
    proof {
        assert(batting_projection_ids(list@) == batting_plan_ids(plans@));
    }
    Some(list)
}

/// Finishes the projections of a list of plans, each from the rounded statistics that
/// stand at its place in `rounded`. The list comes out in the order of the plans: sorted
/// by player where they are. Without one set of statistics for each plan there is no list.
pub fn finalize_pitching(plans: &Vec<PitchingPlan>, rounded: &Vec<RoundedPitching>) -> (list:
    Option<Vec<PitchingProjection>>)
    ensures
        list is Some <==> plans.len() == rounded.len(),
        list matches Some(list) ==> {
            &&& list.len() == plans.len()
            &&& forall|i: int|
                0 <= i < list.len() ==> (#[trigger] list[i])@ == PitchingProjectionView::of(
                    plans[i],
                    rounded[i],
                )
            &&& pitching_projection_ids(list@) == pitching_plan_ids(plans@)
            &&& ids_ascending(pitching_plan_ids(plans@)) ==> ids_ascending(
                pitching_projection_ids(list@),
            )
        },
{
    if plans.len() != rounded.len() {
        return None;
    }
    let mut list: Vec<PitchingProjection> = Vec::new();
    let mut i: usize = 0;
    while i < plans.len()
        invariant
            i <= plans.len() == rounded.len(),
            list.len() == i,
            forall|j: int|
                0 <= j < list.len() ==> (#[trigger] list[j])@ == PitchingProjectionView::of(
                    plans[j],
                    rounded[j],
                ),
        decreases plans.len() - i,
    {
        list.push(PitchingProjection::finalize(&plans[i], rounded[i]));
        i += 1;
    }
    proof {
        assert(pitching_projection_ids(list@) == pitching_plan_ids(plans@));
    }
    Some(list)
}

} // verus!
