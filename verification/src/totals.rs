use crate::databank::{BattingCounts, BattingSeason, PitchingCounts, PitchingSeason};
use vstd::prelude::*;

verus! {

/// The sum of the batting stints of `seasons`, statistic by statistic.
pub open spec fn batting_total(seasons: Seq<BattingSeason>) -> BattingCounts
    decreases seasons.len(),
{
    if seasons.len() == 0 {
        BattingCounts::zero()
    } else {
        batting_total(seasons.drop_last()).plus(seasons.last().counts())
    }
}

/// The sum of the pitching stints of `seasons`, statistic by statistic.
pub open spec fn pitching_total(seasons: Seq<PitchingSeason>) -> PitchingCounts
    decreases seasons.len(),
{
    if seasons.len() == 0 {
        PitchingCounts::zero()
    } else {
        pitching_total(seasons.drop_last()).plus(seasons.last().counts())
    }
}

/// The batting stints of one year.
pub open spec fn batting_in_year(year: u16) -> spec_fn(BattingSeason) -> bool {
    |s: BattingSeason| s.yearid == year
}

/// The batting stints of the years `start_year` to `end_year`, both included.
pub open spec fn batting_in_years(start_year: u16, end_year: u16) -> spec_fn(
    BattingSeason,
) -> bool {
    |s: BattingSeason| start_year <= s.yearid && s.yearid <= end_year
}

/// The batting stints of one player in one year.
pub open spec fn batting_by_in(playerid: Seq<char>, year: u16) -> spec_fn(BattingSeason) -> bool {
    |s: BattingSeason| s.playerid@ == playerid && s.yearid == year
}

/// The pitching stints of one year.
pub open spec fn pitching_in_year(year: u16) -> spec_fn(PitchingSeason) -> bool {
    |s: PitchingSeason| s.yearid == year
}

/// The pitching stints of the years `start_year` to `end_year`, both included.
pub open spec fn pitching_in_years(start_year: u16, end_year: u16) -> spec_fn(
    PitchingSeason,
) -> bool {
    |s: PitchingSeason| start_year <= s.yearid && s.yearid <= end_year
}

/// The pitching stints of one player in one year.
pub open spec fn pitching_by_in(playerid: Seq<char>, year: u16) -> spec_fn(PitchingSeason) -> bool {
    |s: PitchingSeason| s.playerid@ == playerid && s.yearid == year
}

/// A further stint adds its own counts to the total.
pub proof fn lemma_batting_total_push(seasons: Seq<BattingSeason>, season: BattingSeason)
    ensures
        batting_total(seasons.push(season)) == batting_total(seasons).plus(season.counts()),
{
    assert(seasons.push(season).drop_last() == seasons);
}

/// A further stint adds its own counts to the total.
pub proof fn lemma_pitching_total_push(seasons: Seq<PitchingSeason>, season: PitchingSeason)
    ensures
        pitching_total(seasons.push(season)) == pitching_total(seasons).plus(season.counts()),
{
    assert(seasons.push(season).drop_last() == seasons);
}

/// No total is negative.
pub proof fn lemma_batting_total_non_negative(seasons: Seq<BattingSeason>)
    ensures
        batting_total(seasons).non_negative(),
    decreases seasons.len(),
{
    if seasons.len() > 0 {
        lemma_batting_total_non_negative(seasons.drop_last());
    }
}

/// No total is negative.
pub proof fn lemma_pitching_total_non_negative(seasons: Seq<PitchingSeason>)
    ensures
        pitching_total(seasons).non_negative(),
    decreases seasons.len(),
{
    if seasons.len() > 0 {
        lemma_pitching_total_non_negative(seasons.drop_last());
    }
}

/// A narrower choice of stints has the smaller total: where every stint that `narrow`
/// takes is taken by `wide` too, no statistic of the narrow total exceeds the wide one.
pub proof fn lemma_batting_total_narrower(
    seasons: Seq<BattingSeason>,
    narrow: spec_fn(BattingSeason) -> bool,
    wide: spec_fn(BattingSeason) -> bool,
)
    requires
        forall|s: BattingSeason| #[trigger] narrow(s) ==> wide(s),
    ensures
        batting_total(seasons.filter(narrow)).at_most(batting_total(seasons.filter(wide))),
    decreases seasons.len(),
{
    reveal(Seq::filter);
    if seasons.len() > 0 {
        let rest = seasons.drop_last();
        let last = seasons.last();
        lemma_batting_total_narrower(rest, narrow, wide);
        if narrow(last) {
            lemma_batting_total_push(rest.filter(narrow), last);
        }
        if wide(last) {
            lemma_batting_total_push(rest.filter(wide), last);
        }
    }
}

/// A narrower choice of stints has the smaller total.
pub proof fn lemma_pitching_total_narrower(
    seasons: Seq<PitchingSeason>,
    narrow: spec_fn(PitchingSeason) -> bool,
    wide: spec_fn(PitchingSeason) -> bool,
)
    requires
        forall|s: PitchingSeason| #[trigger] narrow(s) ==> wide(s),
    ensures
        pitching_total(seasons.filter(narrow)).at_most(pitching_total(seasons.filter(wide))),
    decreases seasons.len(),
{
    reveal(Seq::filter);
    if seasons.len() > 0 {
        let rest = seasons.drop_last();
        let last = seasons.last();
        lemma_pitching_total_narrower(rest, narrow, wide);
        if narrow(last) {
            lemma_pitching_total_push(rest.filter(narrow), last);
        }
        if wide(last) {
            lemma_pitching_total_push(rest.filter(wide), last);
        }
    }
}

/// Among the first `upto` stints, those that `chosen` takes have a total that never exceeds
/// the total of all the stints that it takes.
pub proof fn lemma_batting_total_chosen_prefix(
    seasons: Seq<BattingSeason>,
    chosen: spec_fn(BattingSeason) -> bool,
    upto: int,
)
    requires
        0 <= upto <= seasons.len(),
    ensures
        batting_total(seasons.take(upto).filter(chosen)).at_most(
            batting_total(seasons.filter(chosen)),
        ),
    decreases seasons.len() - upto,
{
    if upto < seasons.len() {
        lemma_batting_total_chosen_prefix(seasons, chosen, upto + 1);
        assert(seasons.take(upto + 1) == seasons.take(upto).push(seasons[upto]));
        seasons.take(upto).lemma_filter_push(seasons[upto], chosen);
        if chosen(seasons[upto]) {
            lemma_batting_total_push(seasons.take(upto).filter(chosen), seasons[upto]);
        }
    } else {
        assert(seasons.take(upto) == seasons);
    }
}

/// Among the first `upto` stints, those that `chosen` takes have a total that never exceeds
/// the total of all the stints that it takes.
pub proof fn lemma_pitching_total_chosen_prefix(
    seasons: Seq<PitchingSeason>,
    chosen: spec_fn(PitchingSeason) -> bool,
    upto: int,
)
    requires
        0 <= upto <= seasons.len(),
    ensures
        pitching_total(seasons.take(upto).filter(chosen)).at_most(
            pitching_total(seasons.filter(chosen)),
        ),
    decreases seasons.len() - upto,
{
    if upto < seasons.len() {
        lemma_pitching_total_chosen_prefix(seasons, chosen, upto + 1);
        assert(seasons.take(upto + 1) == seasons.take(upto).push(seasons[upto]));
        seasons.take(upto).lemma_filter_push(seasons[upto], chosen);
        if chosen(seasons[upto]) {
            lemma_pitching_total_push(seasons.take(upto).filter(chosen), seasons[upto]);
        }
    } else {
        assert(seasons.take(upto) == seasons);
    }
}

/// A choice that takes no stint leaves nothing.
pub proof fn lemma_none_chosen<T>(seasons: Seq<T>, chosen: spec_fn(T) -> bool)
    requires
        forall|s: T| !#[trigger] chosen(s),
    ensures
        seasons.filter(chosen) == Seq::<T>::empty(),
    decreases seasons.len(),
{
    reveal(Seq::filter);
    if seasons.len() > 0 {
        lemma_none_chosen(seasons.drop_last(), chosen);
    }
}

/// Choosing again from what was chosen changes nothing, where the second choice takes
/// all that the first one takes.
pub proof fn lemma_chosen_again<T>(
    seasons: Seq<T>,
    chosen: spec_fn(T) -> bool,
    again: spec_fn(T) -> bool,
)
    requires
        forall|s: T| #[trigger] chosen(s) ==> again(s),
    ensures
        seasons.filter(chosen).filter(again) == seasons.filter(chosen),
    decreases seasons.len(),
{
    reveal(Seq::filter);
    if seasons.len() > 0 {
        lemma_chosen_again(seasons.drop_last(), chosen, again);
        if chosen(seasons.last()) {
            seasons.drop_last().filter(chosen).lemma_filter_push(seasons.last(), again);
        }
    }
}

/// Where a narrower choice takes any stint at all, so does the wider one.
pub proof fn lemma_chosen_narrower<T>(
    seasons: Seq<T>,
    narrow: spec_fn(T) -> bool,
    wide: spec_fn(T) -> bool,
)
    requires
        forall|s: T| #[trigger] narrow(s) ==> wide(s),
    ensures
        seasons.filter(narrow).len() <= seasons.filter(wide).len(),
    decreases seasons.len(),
{
    reveal(Seq::filter);
    if seasons.len() > 0 {
        lemma_chosen_narrower(seasons.drop_last(), narrow, wide);
    }
}

/// The batting stints of one player in the years from `from` up to, and without, `upto`.
pub open spec fn batting_by_between(playerid: Seq<char>, from: int, upto: int) -> spec_fn(
    BattingSeason,
) -> bool {
    |s: BattingSeason| s.playerid@ == playerid && from <= s.yearid < upto
}

/// The total of a range of years is the total of the years before the last and of the
/// last year together.
pub proof fn lemma_batting_total_by_year(
    seasons: Seq<BattingSeason>,
    playerid: Seq<char>,
    from: int,
    upto: int,
)
    requires
        0 <= from < upto <= u16::MAX + 1,
    ensures
        batting_total(seasons.filter(batting_by_between(playerid, from, upto))) == batting_total(
            seasons.filter(batting_by_between(playerid, from, upto - 1)),
        ).plus(batting_total(seasons.filter(batting_by_in(playerid, (upto - 1) as u16)))),
    decreases seasons.len(),
{
    reveal(Seq::filter);
    if seasons.len() > 0 {
        let rest = seasons.drop_last();
        let last = seasons.last();
        lemma_batting_total_by_year(rest, playerid, from, upto);
        if batting_by_between(playerid, from, upto)(last) {
            lemma_batting_total_push(rest.filter(batting_by_between(playerid, from, upto)), last);
        }
        if batting_by_between(playerid, from, upto - 1)(last) {
            lemma_batting_total_push(
                rest.filter(batting_by_between(playerid, from, upto - 1)),
                last,
            );
        }
        if batting_by_in(playerid, (upto - 1) as u16)(last) {
            lemma_batting_total_push(rest.filter(batting_by_in(playerid, (upto - 1) as u16)), last);
        }
    }
}

/// The totals of the players of `ids` in one year, summed.
pub open spec fn batting_total_of_players(
    seasons: Seq<BattingSeason>,
    ids: Seq<Seq<char>>,
    year: u16,
) -> BattingCounts
    decreases ids.len(),
{
    if ids.len() == 0 {
        BattingCounts::zero()
    } else {
        batting_total_of_players(seasons, ids.drop_last(), year).plus(
            batting_total(seasons.filter(batting_by_in(ids.last(), year))),
        )
    }
}

/// One more stint adds its counts to the players' totals of its year once, where its
/// player is listed, and nothing otherwise.
pub proof fn lemma_batting_total_of_players_push(
    seasons: Seq<BattingSeason>,
    season: BattingSeason,
    ids: Seq<Seq<char>>,
    year: u16,
)
    requires
        ids.no_duplicates(),
    ensures
        batting_total_of_players(seasons.push(season), ids, year) == batting_total_of_players(
            seasons,
            ids,
            year,
        ).plus(
            if season.yearid == year && ids.contains(season.playerid@) {
                season.counts()
            } else {
                BattingCounts::zero()
            },
        ),
    decreases ids.len(),
{
    if ids.len() > 0 {
        let before = ids.drop_last();
        let last = ids.last();
        assert forall|i: int, j: int| 0 <= i < j < before.len() implies before[i]
            != before[j] by {
            assert(before[i] == ids[i] && before[j] == ids[j]);
        }
        lemma_batting_total_of_players_push(seasons, season, before, year);
        seasons.lemma_filter_push(season, batting_by_in(last, year));
        if season.yearid == year && season.playerid@ == last {
            lemma_batting_total_push(seasons.filter(batting_by_in(last, year)), season);
            assert(ids[ids.len() - 1] == season.playerid@);
            if before.contains(season.playerid@) {
                let at = choose|at: int| 0 <= at < before.len() && before[at] == season.playerid@;
                assert(ids[at] == ids[ids.len() - 1]);
            }
        } else if before.contains(season.playerid@) {
            let at = choose|at: int| 0 <= at < before.len() && before[at] == season.playerid@;
            assert(ids[at] == season.playerid@);
        } else if ids.contains(season.playerid@) {
            let at = choose|at: int| 0 <= at < ids.len() && ids[at] == season.playerid@;
            if at < before.len() {
                assert(before[at] == season.playerid@);
            }
        }
    }
}

/// Without stints the players' totals are empty.
pub proof fn lemma_batting_total_of_players_empty(ids: Seq<Seq<char>>, year: u16)
    ensures
        batting_total_of_players(Seq::empty(), ids, year) == BattingCounts::zero(),
    decreases ids.len(),
{
    reveal(Seq::filter);
    if ids.len() > 0 {
        lemma_batting_total_of_players_empty(ids.drop_last(), year);
        assert(Seq::<BattingSeason>::empty().filter(batting_by_in(ids.last(), year)) == Seq::<
            BattingSeason,
        >::empty());
    }
}

/// Nothing is lost between the players and the league: where `ids` lists every player of
/// the stints once, the players' totals of a year add up to the league's total of it.
pub proof fn lemma_batting_league_is_sum_of_players(
    seasons: Seq<BattingSeason>,
    ids: Seq<Seq<char>>,
    year: u16,
)
    requires
        ids.no_duplicates(),
        forall|k: int| 0 <= k < seasons.len() ==> ids.contains(#[trigger] seasons[k].playerid@),
    ensures
        batting_total_of_players(seasons, ids, year) == batting_total(
            seasons.filter(batting_in_year(year)),
        ),
    decreases seasons.len(),
{
    reveal(Seq::filter);
    if seasons.len() == 0 {
        lemma_batting_total_of_players_empty(ids, year);
        assert(seasons == Seq::<BattingSeason>::empty());
    } else {
        let rest = seasons.drop_last();
        let last = seasons.last();
        assert forall|k: int| 0 <= k < rest.len() implies ids.contains(
            #[trigger] rest[k].playerid@,
        ) by {
            assert(rest[k] == seasons[k]);
        }
        lemma_batting_league_is_sum_of_players(rest, ids, year);
        lemma_batting_total_of_players_push(rest, last, ids, year);
        assert(rest.push(last) == seasons);
        assert(ids.contains(seasons[seasons.len() - 1].playerid@));
        if last.yearid == year {
            lemma_batting_total_push(rest.filter(batting_in_year(year)), last);
        }
    }
}

/// The pitching stints of one player in the years from `from` up to, and without, `upto`.
pub open spec fn pitching_by_between(playerid: Seq<char>, from: int, upto: int) -> spec_fn(
    PitchingSeason,
) -> bool {
    |s: PitchingSeason| s.playerid@ == playerid && from <= s.yearid < upto
}

/// The total of a range of years is the total of the years before the last and of the
/// last year together.
pub proof fn lemma_pitching_total_by_year(
    seasons: Seq<PitchingSeason>,
    playerid: Seq<char>,
    from: int,
    upto: int,
)
    requires
        0 <= from < upto <= u16::MAX + 1,
    ensures
        pitching_total(seasons.filter(pitching_by_between(playerid, from, upto))) == pitching_total(
            seasons.filter(pitching_by_between(playerid, from, upto - 1)),
        ).plus(pitching_total(seasons.filter(pitching_by_in(playerid, (upto - 1) as u16)))),
    decreases seasons.len(),
{
    reveal(Seq::filter);
    if seasons.len() > 0 {
        let rest = seasons.drop_last();
        let last = seasons.last();
        lemma_pitching_total_by_year(rest, playerid, from, upto);
        if pitching_by_between(playerid, from, upto)(last) {
            lemma_pitching_total_push(rest.filter(pitching_by_between(playerid, from, upto)), last);
        }
        if pitching_by_between(playerid, from, upto - 1)(last) {
            lemma_pitching_total_push(
                rest.filter(pitching_by_between(playerid, from, upto - 1)),
                last,
            );
        }
        if pitching_by_in(playerid, (upto - 1) as u16)(last) {
            lemma_pitching_total_push(
                rest.filter(pitching_by_in(playerid, (upto - 1) as u16)),
                last,
            );
        }
    }
}

/// The totals of the players of `ids` in one year, summed.
pub open spec fn pitching_total_of_players(
    seasons: Seq<PitchingSeason>,
    ids: Seq<Seq<char>>,
    year: u16,
) -> PitchingCounts
    decreases ids.len(),
{
    if ids.len() == 0 {
        PitchingCounts::zero()
    } else {
        pitching_total_of_players(seasons, ids.drop_last(), year).plus(
            pitching_total(seasons.filter(pitching_by_in(ids.last(), year))),
        )
    }
}

/// One more stint adds its counts to the players' totals of its year once, where its
/// player is listed, and nothing otherwise.
pub proof fn lemma_pitching_total_of_players_push(
    seasons: Seq<PitchingSeason>,
    season: PitchingSeason,
    ids: Seq<Seq<char>>,
    year: u16,
)
    requires
        ids.no_duplicates(),
    ensures
        pitching_total_of_players(seasons.push(season), ids, year) == pitching_total_of_players(
            seasons,
            ids,
            year,
        ).plus(
            if season.yearid == year && ids.contains(season.playerid@) {
                season.counts()
            } else {
                PitchingCounts::zero()
            },
        ),
    decreases ids.len(),
{
    if ids.len() > 0 {
        let before = ids.drop_last();
        let last = ids.last();
        assert forall|i: int, j: int| 0 <= i < j < before.len() implies before[i]
            != before[j] by {
            assert(before[i] == ids[i] && before[j] == ids[j]);
        }
        lemma_pitching_total_of_players_push(seasons, season, before, year);
        seasons.lemma_filter_push(season, pitching_by_in(last, year));
        if season.yearid == year && season.playerid@ == last {
            lemma_pitching_total_push(seasons.filter(pitching_by_in(last, year)), season);
            assert(ids[ids.len() - 1] == season.playerid@);
            if before.contains(season.playerid@) {
                let at = choose|at: int| 0 <= at < before.len() && before[at] == season.playerid@;
                assert(ids[at] == ids[ids.len() - 1]);
            }
        } else if before.contains(season.playerid@) {
            let at = choose|at: int| 0 <= at < before.len() && before[at] == season.playerid@;
            assert(ids[at] == season.playerid@);
        } else if ids.contains(season.playerid@) {
            let at = choose|at: int| 0 <= at < ids.len() && ids[at] == season.playerid@;
            if at < before.len() {
                assert(before[at] == season.playerid@);
            }
        }
    }
}

/// Without stints the players' totals are empty.
pub proof fn lemma_pitching_total_of_players_empty(ids: Seq<Seq<char>>, year: u16)
    ensures
        pitching_total_of_players(Seq::empty(), ids, year) == PitchingCounts::zero(),
    decreases ids.len(),
{
    reveal(Seq::filter);
    if ids.len() > 0 {
        lemma_pitching_total_of_players_empty(ids.drop_last(), year);
        assert(Seq::<PitchingSeason>::empty().filter(pitching_by_in(ids.last(), year)) == Seq::<
            PitchingSeason,
        >::empty());
    }
}

/// Nothing is lost between the players and the league: where `ids` lists every player of
/// the stints once, the players' totals of a year add up to the league's total of it.
pub proof fn lemma_pitching_league_is_sum_of_players(
    seasons: Seq<PitchingSeason>,
    ids: Seq<Seq<char>>,
    year: u16,
)
    requires
        ids.no_duplicates(),
        forall|k: int| 0 <= k < seasons.len() ==> ids.contains(#[trigger] seasons[k].playerid@),
    ensures
        pitching_total_of_players(seasons, ids, year) == pitching_total(
            seasons.filter(pitching_in_year(year)),
        ),
    decreases seasons.len(),
{
    reveal(Seq::filter);
    if seasons.len() == 0 {
        lemma_pitching_total_of_players_empty(ids, year);
        assert(seasons == Seq::<PitchingSeason>::empty());
    } else {
        let rest = seasons.drop_last();
        let last = seasons.last();
        assert forall|k: int| 0 <= k < rest.len() implies ids.contains(
            #[trigger] rest[k].playerid@,
        ) by {
            assert(rest[k] == seasons[k]);
        }
        lemma_pitching_league_is_sum_of_players(rest, ids, year);
        lemma_pitching_total_of_players_push(rest, last, ids, year);
        assert(rest.push(last) == seasons);
        assert(ids.contains(seasons[seasons.len() - 1].playerid@));
        if last.yearid == year {
            lemma_pitching_total_push(rest.filter(pitching_in_year(year)), last);
        }
    }
}

} // verus!
