use crate::databank::{BattingSeason, BattingSeasonSummary, PitchingSeason, PitchingSeasonSummary};
use crate::identity::{
    id_before, id_less, ids_ascending, lemma_id_before_connected, lemma_id_before_irreflexive,
    lemma_id_before_transitive,
};
use crate::totals::{
    batting_by_in, batting_in_year, batting_total, batting_total_of_players,
    lemma_batting_league_is_sum_of_players, lemma_batting_total_chosen_prefix,
    lemma_batting_total_narrower, lemma_batting_total_push,
    lemma_pitching_league_is_sum_of_players, lemma_pitching_total_chosen_prefix,
    lemma_pitching_total_narrower, lemma_pitching_total_push, pitching_by_in, pitching_in_year,
    pitching_total, pitching_total_of_players,
};
use vstd::prelude::*;

verus! {

/// The identities that a list of strings holds.
pub open spec fn id_views(ids: Seq<String>) -> Seq<Seq<char>> {
    ids.map_values(|id: String| id@)
}

/// The players of a list of batting stints, stint by stint.
pub open spec fn batting_names(past: Seq<BattingSeason>) -> Seq<Seq<char>> {
    past.map_values(|s: BattingSeason| s.playerid@)
}

/// The players of a list of pitching stints, stint by stint.
pub open spec fn pitching_names(past: Seq<PitchingSeason>) -> Seq<Seq<char>> {
    past.map_values(|s: PitchingSeason| s.playerid@)
}

/// `ids` lists the identities that occur in `names`: each of them once, no other, in
/// ascending order.
pub open spec fn lists_each_once(ids: Seq<Seq<char>>, names: Seq<Seq<char>>) -> bool {
    &&& ids_ascending(ids)
    &&& forall|k: int| 0 <= k < names.len() ==> ids.contains(#[trigger] names[k])
    &&& forall|i: int| 0 <= i < ids.len() ==> names.contains(#[trigger] ids[i])
}

/// Two ascending lists that hold the same identities are the same list.
pub proof fn lemma_ascending_same_ids(a: Seq<Seq<char>>, b: Seq<Seq<char>>)
    requires
        ids_ascending(a),
        ids_ascending(b),
        forall|i: int| 0 <= i < a.len() ==> b.contains(#[trigger] a[i]),
        forall|j: int| 0 <= j < b.len() ==> a.contains(#[trigger] b[j]),
    ensures
        a == b,
    decreases a.len(),
{
    if a.len() == 0 {
        if b.len() > 0 {
            assert(a.contains(b[0]));
        }
        assert(a == b);
    } else {
        assert(b.contains(a[a.len() - 1]));
        let j = choose|j: int| 0 <= j < b.len() && b[j] == a.last();
        assert(a.contains(b[b.len() - 1]));
        let i = choose|i: int| 0 <= i < a.len() && a[i] == b.last();
        if j < b.len() - 1 {
            // a.last() stands before b.last(), which stands at or before a.last()
            assert(id_before(b[j], b[b.len() - 1]));
            if i < a.len() - 1 {
                assert(id_before(a[i], a[a.len() - 1]));
                lemma_id_before_transitive(a.last(), b.last(), a.last());
            }
            lemma_id_before_irreflexive(a.last());
        }
        assert(a.last() == b.last());
        let a_rest = a.drop_last();
        let b_rest = b.drop_last();
        assert forall|m: int| 0 <= m < a_rest.len() implies b_rest.contains(
            #[trigger] a_rest[m],
        ) by {
            assert(b.contains(a[m]));
            let at = choose|at: int| 0 <= at < b.len() && b[at] == a[m];
            assert(id_before(a[m], a[a.len() - 1]));
            if at == b.len() - 1 {
                lemma_id_before_irreflexive(a.last());
            }
            assert(b_rest[at] == a_rest[m]);
        }
        assert forall|m: int| 0 <= m < b_rest.len() implies a_rest.contains(
            #[trigger] b_rest[m],
        ) by {
            assert(a.contains(b[m]));
            let at = choose|at: int| 0 <= at < a.len() && a[at] == b[m];
            assert(id_before(b[m], b[b.len() - 1]));
            if at == a.len() - 1 {
                lemma_id_before_irreflexive(b.last());
            }
            assert(a_rest[at] == b_rest[m]);
        }
        assert forall|x: int, y: int| 0 <= x < y < a_rest.len() implies id_before(
            a_rest[x],
            a_rest[y],
        ) by {
            assert(id_before(a[x], a[y]));
        }
        assert forall|x: int, y: int| 0 <= x < y < b_rest.len() implies id_before(
            b_rest[x],
            b_rest[y],
        ) by {
            assert(id_before(b[x], b[y]));
        }
        lemma_ascending_same_ids(a_rest, b_rest);
        assert(a == a_rest.push(a.last()));
        assert(b == b_rest.push(b.last()));
    }
}

/// The names decide the list: two lists that each hold the identities of `names` once,
/// in ascending order, are the same list.
pub proof fn lemma_lists_each_once_unique(
    a: Seq<Seq<char>>,
    b: Seq<Seq<char>>,
    names: Seq<Seq<char>>,
)
    requires
        lists_each_once(a, names),
        lists_each_once(b, names),
    ensures
        a == b,
{
    assert forall|i: int| 0 <= i < a.len() implies b.contains(#[trigger] a[i]) by {
        assert(names.contains(a[i]));
        let k = choose|k: int| 0 <= k < names.len() && names[k] == a[i];
        assert(b.contains(names[k]));
    }
    assert forall|j: int| 0 <= j < b.len() implies a.contains(#[trigger] b[j]) by {
        assert(names.contains(b[j]));
        let k = choose|k: int| 0 <= k < names.len() && names[k] == b[j];
        assert(a.contains(names[k]));
    }
    lemma_ascending_same_ids(a, b);
}

/// In an ascending list no identity stands twice.
pub proof fn lemma_ascending_no_duplicates(ids: Seq<Seq<char>>)
    requires
        ids_ascending(ids),
    ensures
        ids.no_duplicates(),
{
    assert forall|i: int, j: int| 0 <= i < ids.len() && 0 <= j < ids.len() && i != j implies ids[i]
        != ids[j] by {
        if i < j {
            assert(id_before(ids[i], ids[j]));
        } else {
            assert(id_before(ids[j], ids[i]));
        }
        lemma_id_before_irreflexive(ids[i]);
    }
}

/// The batting totals of the listed players add up to the league's: in every year the
/// league's total is the sum of what the players of the list did.
pub proof fn lemma_batting_league_is_sum_of_listed(
    past: Seq<BattingSeason>,
    ids: Seq<Seq<char>>,
    year: u16,
)
    requires
        lists_each_once(ids, batting_names(past)),
    ensures
        batting_total_of_players(past, ids, year) == batting_total(
            past.filter(batting_in_year(year)),
        ),
{
    lemma_ascending_no_duplicates(ids);
    assert forall|k: int| 0 <= k < past.len() implies ids.contains(
        #[trigger] past[k].playerid@,
    ) by {
        assert(batting_names(past)[k] == past[k].playerid@);
    }
    lemma_batting_league_is_sum_of_players(past, ids, year);
}

/// The pitching totals of the listed players add up to the league's: in every year the
/// league's total is the sum of what the players of the list did.
pub proof fn lemma_pitching_league_is_sum_of_listed(
    past: Seq<PitchingSeason>,
    ids: Seq<Seq<char>>,
    year: u16,
)
    requires
        lists_each_once(ids, pitching_names(past)),
    ensures
        pitching_total_of_players(past, ids, year) == pitching_total(
            past.filter(pitching_in_year(year)),
        ),
{
    lemma_ascending_no_duplicates(ids);
    assert forall|k: int| 0 <= k < past.len() implies ids.contains(
        #[trigger] past[k].playerid@,
    ) by {
        assert(pitching_names(past)[k] == past[k].playerid@);
    }
    lemma_pitching_league_is_sum_of_players(past, ids, year);
}

/// The first place in an ascending list whose identity does not come before `name`.
fn lower_bound(ids: &Vec<String>, name: &String) -> (pos: usize)
    requires
        ids_ascending(id_views(ids@)),
    ensures
        pos <= ids.len(),
        forall|i: int| 0 <= i < pos ==> id_before(#[trigger] ids[i]@, name@),
        forall|i: int| pos <= i < ids.len() ==> !id_before(#[trigger] ids[i]@, name@),
{
    let mut lo: usize = 0;
    let mut hi: usize = ids.len();
    while lo < hi
        invariant
            lo <= hi <= ids.len(),
            ids_ascending(id_views(ids@)),
            forall|i: int| 0 <= i < lo ==> id_before(#[trigger] ids[i]@, name@),
            forall|i: int| hi <= i < ids.len() ==> !id_before(#[trigger] ids[i]@, name@),
        decreases hi - lo,
    {
        let mid: usize = lo + (hi - lo) / 2;
        if id_less(ids[mid].as_str(), name.as_str()) {
            proof {
                assert forall|i: int| 0 <= i < mid + 1 implies id_before(
                    #[trigger] ids[i]@,
                    name@,
                ) by {
                    if i < mid {
                        assert(id_before(id_views(ids@)[i], id_views(ids@)[mid as int]));
                        lemma_id_before_transitive(ids[i]@, ids[mid as int]@, name@);
                    }
                }
            }
            lo = mid + 1;
        } else {
            proof {
                assert forall|i: int| mid <= i < ids.len() implies !id_before(
                    #[trigger] ids[i]@,
                    name@,
                ) by {
                    if mid < i && id_before(ids[i]@, name@) {
                        assert(id_before(id_views(ids@)[mid as int], id_views(ids@)[i]));
                        lemma_id_before_transitive(ids[mid as int]@, ids[i]@, name@);
                    }
                }
            }
            hi = mid;
        }
    }
    lo
}

/// The identities that occur among `names`: each once, in ascending order.
pub fn distinct_ids(names: &Vec<&String>) -> (ids: Vec<String>)
    ensures
        lists_each_once(id_views(ids@), names@.map_values(|name: &String| name@)),
{
    let ghost all = names@.map_values(|name: &String| name@);
    let mut ids: Vec<String> = Vec::new();
    let mut k: usize = 0;
    while k < names.len()
        invariant
            k <= names.len(),
            all == names@.map_values(|name: &String| name@),
            lists_each_once(id_views(ids@), all.take(k as int)),
        decreases names.len() - k,
    {
        let name = names[k];
        let ghost before = ids@;
        let ghost seen = all.take(k as int);
        let pos = lower_bound(&ids, name);
        let known = pos < ids.len() && ids[pos] == *name;
        if !known {
            ids.insert(pos, name.clone());
            proof {
                let old_views = id_views(before);
                let new_views = id_views(ids@);
                assert(new_views == old_views.insert(pos as int, name@));
                assert forall|i: int, j: int| 0 <= i < j < new_views.len() implies id_before(
                    new_views[i],
                    new_views[j],
                ) by {
                    if j < pos {
                        assert(id_before(old_views[i], old_views[j]));
                    } else if j == pos {
                        assert(id_before(before[i]@, name@));
                    } else if i == pos {
                        // `name` against an identity that stood at or after its place
                        let other = old_views[j - 1];
                        assert(!id_before(before[j - 1]@, name@));
                        if !id_before(name@, other) {
                            lemma_id_before_connected(name@, other);
                            if j - 1 == pos {
                                assert(before[pos as int]@ == name@);
                            } else {
                                assert(id_before(old_views[pos as int], old_views[j - 1]));
                                assert(!id_before(before[pos as int]@, name@));
                            }
                        }
                    } else if i < pos {
                        assert(id_before(old_views[i], old_views[j - 1]));
                    } else {
                        assert(id_before(old_views[i - 1], old_views[j - 1]));
                    }
                }
                assert forall|m: int| 0 <= m < k + 1 implies new_views.contains(
                    #[trigger] all.take(k + 1)[m],
                ) by {
                    if m < k {
                        assert(old_views.contains(seen[m]));
                        let at = choose|at: int|
                            0 <= at < old_views.len() && old_views[at] == seen[m];
                        if at < pos {
                            assert(new_views[at] == seen[m]);
                        } else {
                            assert(new_views[at + 1] == seen[m]);
                        }
                    } else {
                        assert(new_views[pos as int] == name@);
                    }
                }
                assert forall|i: int| 0 <= i < new_views.len() implies all.take(k + 1).contains(
                    #[trigger] new_views[i],
                ) by {
                    if i == pos {
                        assert(all.take(k + 1)[k as int] == name@);
                    } else {
                        let was = if i < pos {
                            i
                        } else {
                            i - 1
                        };
                        assert(seen.contains(old_views[was]));
                        let at = choose|at: int| 0 <= at < seen.len() && seen[at] == old_views[was];
                        assert(all.take(k + 1)[at] == old_views[was]);
                    }
                }
            }
        } else {
            proof {
                let views = id_views(ids@);
                assert forall|m: int| 0 <= m < k + 1 implies views.contains(
                    #[trigger] all.take(k + 1)[m],
                ) by {
                    if m < k {
                        assert(views.contains(seen[m]));
                    } else {
                        assert(views[pos as int] == name@);
                    }
                }
                assert forall|i: int| 0 <= i < views.len() implies all.take(k + 1).contains(
                    #[trigger] views[i],
                ) by {
                    assert(seen.contains(views[i]));
                    let at = choose|at: int| 0 <= at < seen.len() && seen[at] == views[i];
                    assert(all.take(k + 1)[at] == views[i]);
                }
            }
        }
        k += 1;
    }
    proof {
        assert(all.take(k as int) == all);
    }
    ids
}

/// The players who have a batting stint among `past`: each once, in ascending order.
pub fn batting_ids(past: &Vec<&BattingSeason>) -> (ids: Vec<String>)
    ensures
        lists_each_once(id_views(ids@), batting_names(past@.unref())),
{
    let mut names: Vec<&String> = Vec::new();
    let mut i: usize = 0;
    while i < past.len()
        invariant
            i <= past.len(),
            names@.map_values(|name: &String| name@) == batting_names(past@.unref()).take(i as int),
        decreases past.len() - i,
    {
        let ghost had = names@.map_values(|name: &String| name@);
        names.push(&past[i].playerid);
        proof {
            let now = names@.map_values(|name: &String| name@);
            assert(now == had.push(past[i as int].playerid@));
            assert(batting_names(past@.unref()).take(i + 1) == had.push(past[i as int].playerid@));
        }
        i += 1;
    }
    proof {
        assert(batting_names(past@.unref()).take(i as int) == batting_names(past@.unref()));
    }
    distinct_ids(&names)
}

/// A player's batting stints of one year summed, or `None` where `past` holds no batting stint
/// of the player in that year.
pub fn batting_year_of(past: &Vec<&BattingSeason>, playerid: &String, year: u16) -> (sum: Option<
    BattingSeasonSummary,
>)
    requires
        batting_total(past@.unref().filter(batting_in_year(year))).fits(),
    ensures
        match sum {
            Some(total) => {
                &&& past@.unref().filter(batting_by_in(playerid@, year)).len() > 0
                &&& total@ == batting_total(past@.unref().filter(batting_by_in(playerid@, year)))
            },
            None => past@.unref().filter(batting_by_in(playerid@, year)).len() == 0,
        },
{
    let ghost all = past@.unref();
    let ghost chosen = batting_by_in(playerid@, year);
    let mut total = BattingSeasonSummary::new();
    let mut any = false;
    let mut i: usize = 0;
    proof {
        reveal(Seq::filter);
        assert(all.take(0).filter(chosen) == Seq::<BattingSeason>::empty());
    }
    while i < past.len()
        invariant
            i <= past.len(),
            all == past@.unref(),
            chosen == batting_by_in(playerid@, year),
            batting_total(all.filter(batting_in_year(year))).fits(),
            total@ == batting_total(all.take(i as int).filter(chosen)),
            any == (all.take(i as int).filter(chosen).len() > 0),
        decreases past.len() - i,
    {
        let season = past[i];
        proof {
            assert(all.take(i + 1) == all.take(i as int).push(*season));
            all.take(i as int).lemma_filter_push(*season, chosen);
        }
        if season.yearid == year && season.playerid == *playerid {
            proof {
                lemma_batting_total_push(all.take(i as int).filter(chosen), *season);
                lemma_batting_total_chosen_prefix(all, chosen, i + 1);
                lemma_batting_total_narrower(all, chosen, batting_in_year(year));
            }
            total.mut_add_season(season);
            any = true;
        }
        i += 1;
    }
    proof {
        assert(all.take(i as int) == all);
    }
    if any {
        Some(total)
    } else {
        None
    }
}

/// The players who have a pitching stint among `past`: each once, in ascending order.
pub fn pitching_ids(past: &Vec<&PitchingSeason>) -> (ids: Vec<String>)
    ensures
        lists_each_once(id_views(ids@), pitching_names(past@.unref())),
{
    let mut names: Vec<&String> = Vec::new();
    let mut i: usize = 0;
    while i < past.len()
        invariant
            i <= past.len(),
            names@.map_values(|name: &String| name@) == pitching_names(past@.unref()).take(
                i as int,
            ),
        decreases past.len() - i,
    {
        let ghost had = names@.map_values(|name: &String| name@);
        names.push(&past[i].playerid);
        proof {
            let now = names@.map_values(|name: &String| name@);
            assert(now == had.push(past[i as int].playerid@));
            assert(pitching_names(past@.unref()).take(i + 1) == had.push(past[i as int].playerid@));
        }
        i += 1;
    }
    proof {
        assert(pitching_names(past@.unref()).take(i as int) == pitching_names(past@.unref()));
    }
    distinct_ids(&names)
}

/// A player's pitching stints of one year summed, or `None` where `past` holds no pitching stint
/// of the player in that year.
pub fn pitching_year_of(past: &Vec<&PitchingSeason>, playerid: &String, year: u16) -> (sum: Option<
    PitchingSeasonSummary,
>)
    requires
        pitching_total(past@.unref().filter(pitching_in_year(year))).fits(),
    ensures
        match sum {
            Some(total) => {
                &&& past@.unref().filter(pitching_by_in(playerid@, year)).len() > 0
                &&& total@ == pitching_total(past@.unref().filter(pitching_by_in(playerid@, year)))
            },
            None => past@.unref().filter(pitching_by_in(playerid@, year)).len() == 0,
        },
{
    let ghost all = past@.unref();
    let ghost chosen = pitching_by_in(playerid@, year);
    let mut total = PitchingSeasonSummary::new();
    let mut any = false;
    let mut i: usize = 0;
    proof {
        reveal(Seq::filter);
        assert(all.take(0).filter(chosen) == Seq::<PitchingSeason>::empty());
    }
    while i < past.len()
        invariant
            i <= past.len(),
            all == past@.unref(),
            chosen == pitching_by_in(playerid@, year),
            pitching_total(all.filter(pitching_in_year(year))).fits(),
            total@ == pitching_total(all.take(i as int).filter(chosen)),
            any == (all.take(i as int).filter(chosen).len() > 0),
        decreases past.len() - i,
    {
        let season = past[i];
        proof {
            assert(all.take(i + 1) == all.take(i as int).push(*season));
            all.take(i as int).lemma_filter_push(*season, chosen);
        }
        if season.yearid == year && season.playerid == *playerid {
            proof {
                lemma_pitching_total_push(all.take(i as int).filter(chosen), *season);
                lemma_pitching_total_chosen_prefix(all, chosen, i + 1);
                lemma_pitching_total_narrower(all, chosen, pitching_in_year(year));
            }
            total.mut_add_season(season);
            any = true;
        }
        i += 1;
    }
    proof {
        assert(all.take(i as int) == all);
    }
    if any {
        Some(total)
    } else {
        None
    }
}

} // verus!
