use capuchin::databank::{RawBattingSeason, RawPitchingSeason};
use capuchin::error::ProjectionError;
use capuchin::forecast::AgeAdjustment;
use capuchin::plan::BattingPlan;
use capuchin::projection::Capuchin;
use capuchin::register::{People, PeopleRegister};

fn batter_row(playerid: &str, yearid: u16, ab: u16, h: u16, bb: u16) -> RawBattingSeason {
    RawBattingSeason {
        playerid: String::from(playerid),
        yearid,
        g: 150,
        ab,
        r: 70,
        h,
        double: 25,
        triple: 2,
        hr: 15,
        rbi: Some(65),
        sb: Some(8),
        cs: Some(3),
        bb,
        so: Some(90),
        ibb: Some(2),
        hbp: None,
        sh: None,
        sf: None,
        gidp: Some(10),
    }
}

fn pitcher_row(playerid: &str, yearid: u16, ipouts: u16, er: u16) -> RawPitchingSeason {
    RawPitchingSeason {
        playerid: String::from(playerid),
        yearid,
        w: 10,
        l: 8,
        sv: 0,
        ipouts,
        h: 160,
        r: er + 6,
        er,
        hr: 18,
        bb: 45,
        so: 150,
        ibb: Some(1),
        wp: Some(4),
        hbp: Some(5),
        bk: 0,
    }
}

fn registered(bbref: &str, birth_year: Option<u16>) -> PeopleRegister {
    PeopleRegister {
        key_uuid: format!("uuid-{}", bbref),
        key_bbref: Some(String::from(bbref)),
        birth_year,
    }
}

fn default_run() -> Capuchin {
    Capuchin::new(27, 1200, 60, 25, 3, 3)
}

fn is_same_adjustment(adjustment: AgeAdjustment, expected: &str) -> bool {
    format!("{:?}", adjustment) == expected
}

#[test]
fn a_run_without_data_plans_nothing() {
    let run = default_run();
    assert!(run.batting_projection(2016).unwrap().is_empty());
    assert!(run.pitching_projection(2016).unwrap().is_empty());
}

#[test]
fn a_window_may_not_reach_before_year_zero() {
    let mut run = default_run();
    assert!(run.load_batting(vec![batter_row("x", 1, 500, 130, 100)]).is_ok());
    assert!(matches!(run.batting_projection(2), Err(ProjectionError::WindowBeforeYearZero)));
    assert!(matches!(run.pitching_projection(0), Err(ProjectionError::WindowBeforeYearZero)));
    let plans = run.batting_projection(3).unwrap();
    assert_eq!(plans.len(), 1);
    assert_eq!(plans[0].seasons[0].year, 1);
    assert_eq!(plans[0].seasons[0].years_back, 2);
}

#[test]
fn without_weights_nothing_is_looked_back_on() {
    let mut run = Capuchin::new(27, 1200, 60, 25, 0, 0);
    assert!(run.load_batting(vec![batter_row("x", 2015, 500, 130, 100)]).is_ok());
    assert!(run.load_pitching(vec![pitcher_row("p", 2015, 600, 70)]).is_ok());
    assert!(run.batting_projection(2016).unwrap().is_empty());
    assert!(run.pitching_projection(2016).unwrap().is_empty());
    assert!(run.batting_projection(0).unwrap().is_empty());
}

// Weights 5, 4 and 3, a regression of 1200 plate appearances, and a player whose only
// season of the window is last year's, with 600 plate appearances.
#[test]
fn one_season_of_600_plate_appearances() {
    let mut run = default_run();
    let rows = vec![
        batter_row("playerx01", 2015, 540, 150, 60),
        batter_row("other01", 2015, 9460, 2450, 940),
        batter_row("playerx01", 2012, 500, 150, 50),
        batter_row("playerx01", 2016, 500, 150, 50),
    ];
    assert!(run.load_batting(rows).is_ok());
    let plans = run.batting_projection(2016).unwrap();
    assert_eq!(plans.len(), 2);
    let plan: &BattingPlan = &plans[1];
    assert_eq!(plan.playerid, "playerx01");
    assert_eq!(plan.year, 2016);
    assert_eq!(plan.seasons.len(), 1);
    let season = &plan.seasons[0];
    assert_eq!(season.year, 2015);
    assert_eq!(season.years_back, 1);
    assert_eq!(season.own.pa, 600);
    assert_eq!(season.own.h, 150);
    assert_eq!(season.league.pa, 11000);
    assert_eq!(season.league.h, 2600);
    assert_eq!(plan.regress, 1200);
    assert_eq!(plan.projected_pa, 500);
    assert_eq!(plan.age, None);
    assert!(is_same_adjustment(plan.adjustment, "Unchanged"));

    // What follows from the plan with the weights 5, 4 and 3.
    let weights = [5.0f32, 4.0, 3.0];
    let weight = weights[(season.years_back - 1) as usize];
    let weighted_pa = season.own.pa as f32 * weight;
    assert_eq!(weighted_pa, 3000.0);
    let league_mean_pa = season.own.pa as f32 * weight;
    assert_eq!(league_mean_pa, 3000.0);
    let regressed_pa = weighted_pa + plan.regress as f32;
    assert_eq!(regressed_pa, 4200.0);
    let reliability = weighted_pa / regressed_pa;
    assert!((reliability - 0.714).abs() < 0.001);
    let factor = plan.projected_pa as f32 / regressed_pa;
    assert!((factor - 500.0 / 4200.0).abs() < 1e-6);
    let league_hit_rate = season.league.h as f32 / season.league.pa as f32;
    let anchor_h = plan.regress as f32 * league_hit_rate;
    let projected_h = (season.own.h as f32 * weight + anchor_h) * factor;
    assert!((projected_h - (750.0 + 1200.0 * 2600.0 / 11000.0) * 500.0 / 4200.0).abs() < 1e-3);
}

#[test]
fn plans_come_in_the_order_of_the_players() {
    let mut run = default_run();
    let rows = vec![
        batter_row("troutmi01", 2015, 500, 150, 90),
        batter_row("aaronha01", 2014, 500, 150, 60),
        batter_row("ruthba01", 2013, 450, 160, 130),
        batter_row("aaronha01", 2015, 510, 151, 61),
        batter_row("abbotji01", 2015, 20, 2, 0),
        batter_row("ruthba01", 2015, 450, 160, 130),
        batter_row("ruthba01", 2013, 10, 3, 1),
    ];
    assert!(run.load_batting(rows).is_ok());
    let plans = run.batting_projection(2016).unwrap();
    let ids: Vec<&str> = plans.iter().map(|plan| plan.playerid.as_str()).collect();
    assert_eq!(ids, vec!["aaronha01", "abbotji01", "ruthba01", "troutmi01"]);

    let aaron = &plans[0];
    let years: Vec<(u16, u16, u32)> = aaron.seasons.iter()
        .map(|season| (season.year, season.years_back, season.own.pa))
        .collect();
    assert_eq!(years, vec![(2014, 2, 560), (2015, 1, 571)]);
    assert_eq!(aaron.projected_pa, (2000 + 5 * 571 + 560) / 10);

    let ruth = &plans[2];
    let years: Vec<(u16, u16, u32)> = ruth.seasons.iter()
        .map(|season| (season.year, season.years_back, season.own.pa))
        .collect();
    assert_eq!(years, vec![(2013, 3, 591), (2015, 1, 580)]);
    assert_eq!(ruth.seasons[0].own.h, 163);
    assert_eq!(ruth.seasons[0].league.pa, 591);
    assert_eq!(ruth.seasons[1].league.pa, 590 + 571 + 20 + 580);
    assert_eq!(ruth.projected_pa, 490);
}

#[test]
fn seasons_outside_the_window_count_for_nothing() {
    let mut run = Capuchin::new(27, 1200, 60, 25, 1, 1);
    let rows = vec![
        batter_row("a", 2015, 500, 150, 100),
        batter_row("a", 2014, 400, 100, 100),
        batter_row("b", 2014, 400, 100, 100),
        batter_row("a", 2016, 400, 100, 100),
    ];
    assert!(run.load_batting(rows).is_ok());
    let plans = run.batting_projection(2016).unwrap();
    assert_eq!(plans.len(), 1);
    assert_eq!(plans[0].playerid, "a");
    assert_eq!(plans[0].seasons.len(), 1);
    assert_eq!(plans[0].seasons[0].year, 2015);
    // The season of two years ago lies before the window of one year.
    assert_eq!(plans[0].projected_pa, 500);
    assert_eq!(plans[0].seasons[0].league.pa, 600);
}

#[test]
fn the_age_comes_from_the_register() {
    let mut run = default_run();
    let rows = vec![
        batter_row("young01", 2015, 500, 150, 100),
        batter_row("old01", 2015, 500, 150, 100),
        batter_row("peak01", 2015, 500, 150, 100),
        batter_row("nobirth01", 2015, 500, 150, 100),
        batter_row("unborn01", 2015, 500, 150, 100),
        batter_row("missing01", 2015, 500, 150, 100),
    ];
    assert!(run.load_batting(rows).is_ok());

    let plans = run.batting_projection(2016).unwrap();
    assert!(plans.iter().all(|plan| plan.age.is_none()));
    assert!(plans.iter().all(|plan| is_same_adjustment(plan.adjustment, "Unchanged")));

    run.load_register(People::from_register(vec![
        registered("young01", Some(1994)),
        registered("old01", Some(1980)),
        registered("peak01", Some(1989)),
        registered("nobirth01", None),
        registered("unborn01", Some(2017)),
    ]));
    let plans = run.batting_projection(2016).unwrap();
    let ages: Vec<(&str, Option<u8>, String)> = plans.iter()
        .map(|plan| (plan.playerid.as_str(), plan.age, format!("{:?}", plan.adjustment)))
        .collect();
    assert_eq!(ages, vec![
        ("missing01", None, String::from("Unchanged")),
        ("nobirth01", None, String::from("Unchanged")),
        ("old01", Some(36), String::from("Decline { years: 9 }")),
        ("peak01", Some(27), String::from("Unchanged")),
        ("unborn01", None, String::from("Unchanged")),
        ("young01", Some(22), String::from("Improve { years: 5 }")),
    ]);
}

#[test]
fn a_year_of_seasons_without_opportunities_stops_the_projection() {
    let mut run = default_run();
    let mut idle = batter_row("idle01", 2014, 0, 0, 0);
    idle.g = 3;
    let rows = vec![batter_row("a", 2015, 500, 150, 100), idle];
    assert!(run.load_batting(rows).is_ok());
    match run.batting_projection(2016) {
        Err(ProjectionError::NoLeagueOpportunities { year }) => assert_eq!(year, 2014),
        other => panic!("unexpected {:?}", other.map(|plans| plans.len())),
    }
    // A year later the idle year still lies in the window, two years later no more.
    assert!(run.batting_projection(2017).is_err());
    assert!(run.batting_projection(2018).is_ok());
}

#[test]
fn pitchers_are_planned_in_outs() {
    let mut run = default_run();
    let rows = vec![
        pitcher_row("starter01", 2015, 600, 70),
        pitcher_row("starter01", 2014, 630, 75),
        pitcher_row("reliever01", 2015, 180, 20),
        pitcher_row("starter01", 2015, 30, 5),
    ];
    assert!(run.load_pitching(rows).is_ok());
    run.load_register(People::from_register(vec![registered("starter01", Some(1986))]));
    let plans = run.pitching_projection(2016).unwrap();
    let ids: Vec<&str> = plans.iter().map(|plan| plan.playerid.as_str()).collect();
    assert_eq!(ids, vec!["reliever01", "starter01"]);

    let reliever = &plans[0];
    assert_eq!(reliever.year, 2016);
    assert_eq!(reliever.seasons.len(), 1);
    assert_eq!(reliever.seasons[0].own.ipouts, 180);
    assert_eq!(reliever.seasons[0].league.ipouts, 810);
    assert_eq!(reliever.seasons[0].league.er, 95);
    assert_eq!(reliever.projected_ipouts, 290);
    // Sixty innings, in outs.
    assert_eq!(reliever.regress, 180);
    assert_eq!(reliever.age, None);

    let starter = &plans[1];
    let years: Vec<(u16, u16, u32, u32)> = starter.seasons.iter()
        .map(|season| (season.year, season.years_back, season.own.ipouts, season.own.er))
        .collect();
    assert_eq!(years, vec![(2014, 2, 630, 75), (2015, 1, 630, 75)]);
    assert_eq!(starter.projected_ipouts, 200 + 315 + 63);
    assert_eq!(starter.regress, 180);
    assert_eq!(starter.age, Some(30));
    assert!(is_same_adjustment(starter.adjustment, "Decline { years: 3 }"));
}

#[test]
fn a_projection_leaves_the_run_as_it_was() {
    let mut run = default_run();
    assert!(run.load_batting(vec![
        batter_row("a", 2015, 500, 150, 100),
        batter_row("b", 2014, 400, 100, 50),
    ]).is_ok());
    let first: Vec<(String, u32)> = run.batting_projection(2016).unwrap().iter()
        .map(|plan| (plan.playerid.clone(), plan.projected_pa))
        .collect();
    let _ = run.batting_projection(2017);
    let second: Vec<(String, u32)> = run.batting_projection(2016).unwrap().iter()
        .map(|plan| (plan.playerid.clone(), plan.projected_pa))
        .collect();
    assert_eq!(first, second);
    assert_eq!(first, vec![(String::from("a"), 500), (String::from("b"), 245)]);
}

#[test]
fn players_out_of_position_get_no_plan() {
    let mut run = default_run();
    assert!(run.load_batting(vec![
        batter_row("batter01", 2015, 500, 150, 100),
        batter_row("pitcher01", 2015, 4, 0, 0),
    ]).is_ok());
    assert!(run.load_pitching(vec![
        pitcher_row("pitcher01", 2015, 600, 70),
        pitcher_row("batter01", 2015, 3, 1),
    ]).is_ok());
    assert_eq!(run.batting_projection(2016).unwrap().len(), 2);
    assert_eq!(run.pitching_projection(2016).unwrap().len(), 2);
    run.remove_out_of_position_players();
    let batters = run.batting_projection(2016).unwrap();
    assert_eq!(batters.len(), 1);
    assert_eq!(batters[0].playerid, "batter01");
    assert_eq!(batters[0].seasons[0].league.pa, 600);
    let pitchers = run.pitching_projection(2016).unwrap();
    assert_eq!(pitchers.len(), 1);
    assert_eq!(pitchers[0].playerid, "pitcher01");
}

#[test]
fn a_refused_row_stops_the_loading_of_a_run() {
    let mut run = default_run();
    let rows = vec![
        batter_row("a", 2015, 500, 150, 100),
        batter_row("b", 2015, 65535, 150, 100),
        batter_row("c", 2015, 500, 150, 100),
    ];
    let fault = run.load_batting(rows).unwrap_err();
    assert_eq!(fault.row(), 1);
    let plans = run.batting_projection(2016).unwrap();
    assert_eq!(plans.len(), 1);
    assert_eq!(plans[0].playerid, "a");

    let rows = vec![pitcher_row("p", 2015, 65535, 70), pitcher_row("p", 2015, 1, 0)];
    let fault = run.load_pitching(rows).unwrap_err();
    assert_eq!(fault.row(), 1);
    assert_eq!(run.pitching_projection(2016).unwrap().len(), 1);
}

#[test]
fn the_seasons_of_a_plan_add_up_to_the_stints_of_the_player() {
    let mut run = default_run();
    let rows = vec![
        batter_row("a", 2015, 300, 90, 30),
        batter_row("b", 2015, 400, 100, 30),
        batter_row("a", 2015, 200, 60, 20),
        batter_row("a", 2013, 450, 120, 40),
        batter_row("a", 2012, 450, 120, 40),
    ];
    assert!(run.load_batting(rows).is_ok());
    let plans = run.batting_projection(2016).unwrap();
    assert_eq!(plans[0].playerid, "a");
    let pa: u32 = plans[0].seasons.iter().map(|season| season.own.pa).sum();
    let h: u32 = plans[0].seasons.iter().map(|season| season.own.h).sum();
    assert_eq!(pa, 330 + 220 + 490);
    assert_eq!(h, 90 + 60 + 120);
    // No player did more than the league, and the league has rates for every season.
    for plan in plans.iter() {
        for season in plan.seasons.iter() {
            assert!(season.own.pa <= season.league.pa);
            assert!(season.own.h <= season.league.h);
            assert!(season.league.pa > 0);
            assert!(1 <= season.years_back && season.years_back <= 3);
            assert_eq!(season.year + season.years_back, 2016);
        }
    }
}

#[test]
fn a_player_with_one_season_has_a_plan_of_that_season_alone() {
    let mut run = default_run();
    let rows = vec![
        batter_row("a", 2014, 300, 90, 30),
        batter_row("b", 2015, 400, 100, 30),
        batter_row("a", 2014, 200, 60, 20),
    ];
    assert!(run.load_batting(rows).is_ok());
    let plans = run.batting_projection(2016).unwrap();
    assert_eq!(plans[0].seasons.len(), 1);
    let season = &plans[0].seasons[0];
    assert_eq!((season.year, season.years_back), (2014, 2));
    assert_eq!((season.own.pa, season.own.ab, season.own.h, season.own.bb), (550, 500, 150, 50));
    assert_eq!((season.own.g, season.own.hr, season.own.so), (300, 30, 180));
    assert_eq!(season.league.pa, 550);
}
