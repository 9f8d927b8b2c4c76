use capuchin::databank::{RawBattingSeason, RawPitchingSeason};
use capuchin::finalize::{
    finalize_batting, finalize_pitching, round_quotient, BattingProjection, PitchingProjection,
    RoundedBatting, RoundedPitching,
};
use capuchin::plan::{BattingPlan, PitchingPlan};
use capuchin::projection::Capuchin;
use capuchin::register::{People, PeopleRegister};

fn plain_batter(playerid: &str, yearid: u16, ab: u16) -> RawBattingSeason {
    RawBattingSeason {
        playerid: String::from(playerid),
        yearid,
        g: 150,
        ab,
        r: 70,
        h: 150,
        double: 25,
        triple: 2,
        hr: 15,
        rbi: None,
        sb: None,
        cs: None,
        bb: 0,
        so: None,
        ibb: None,
        hbp: None,
        sh: None,
        sf: None,
        gidp: None,
    }
}

fn plain_pitcher(playerid: &str, yearid: u16, ipouts: u16) -> RawPitchingSeason {
    RawPitchingSeason {
        playerid: String::from(playerid),
        yearid,
        w: 10,
        l: 8,
        sv: 0,
        ipouts,
        h: 160,
        r: 80,
        er: 70,
        hr: 18,
        bb: 45,
        so: 150,
        ibb: None,
        wp: None,
        hbp: None,
        bk: 0,
    }
}

fn batting_plans(rows: Vec<RawBattingSeason>) -> Vec<BattingPlan> {
    let mut run = Capuchin::new(27, 1200, 60, 25, 3, 3);
    assert!(run.load_batting(rows).is_ok());
    run.load_register(People::from_register(vec![PeopleRegister {
        key_uuid: String::from("uuid"),
        key_bbref: Some(String::from("aged01")),
        birth_year: Some(1990),
    }]));
    run.batting_projection(2016).unwrap()
}

fn pitching_plans(rows: Vec<RawPitchingSeason>) -> Vec<PitchingPlan> {
    let mut run = Capuchin::new(27, 1200, 60, 25, 3, 3);
    assert!(run.load_pitching(rows).is_ok());
    run.pitching_projection(2016).unwrap()
}

fn rounded_batting(bb: i32, hbp: i32, sf: i32, sh: i32) -> RoundedBatting {
    RoundedBatting {
        r: 61,
        h: 124,
        double: 22,
        triple: 2,
        hr: 14,
        rbi: 58,
        sb: 6,
        cs: 2,
        bb,
        so: 88,
        ibb: 3,
        hbp,
        sh,
        sf,
        gidp: 9,
    }
}

fn rounded_pitching(er: i32) -> RoundedPitching {
    RoundedPitching {
        w: 9,
        l: 8,
        sv: 1,
        h: 140,
        r: er + 5,
        er,
        hr: 15,
        so: 130,
        bb: 40,
        ibb: 2,
        hbp: 4,
        wp: 3,
        bk: 0,
    }
}

#[test]
fn quotients_are_rounded_to_the_nearest_whole_number() {
    assert_eq!(round_quotient(0, 3), 0);
    assert_eq!(round_quotient(1, 3), 0);
    assert_eq!(round_quotient(2, 3), 1);
    assert_eq!(round_quotient(3, 3), 1);
    assert_eq!(round_quotient(4, 3), 1);
    assert_eq!(round_quotient(5, 3), 2);
    assert_eq!(round_quotient(7, 2), 4);
    assert_eq!(round_quotient(5, 2), 3);
    assert_eq!(round_quotient(49, 100), 0);
    assert_eq!(round_quotient(50, 100), 1);
    assert_eq!(round_quotient(149, 100), 1);
    assert_eq!(round_quotient(150, 100), 2);
    assert_eq!(round_quotient(10, 1), 10);
}

#[test]
fn halves_are_rounded_away_from_zero() {
    assert_eq!(round_quotient(1, 2), 1);
    assert_eq!(round_quotient(-1, 2), -1);
    assert_eq!(round_quotient(-7, 2), -4);
    assert_eq!(round_quotient(-5, 3), -2);
    assert_eq!(round_quotient(-4, 3), -1);
    assert_eq!(round_quotient(-1, 3), 0);
    let mut n: i64 = -2000;
    while n <= 2000 {
        let mut d: u32 = 1;
        while d <= 40 {
            assert_eq!(round_quotient(n, d), (n as f64 / d as f64).round() as i64);
            d += 1;
        }
        n += 1;
    }
}

#[test]
fn at_bats_are_what_the_rounded_statistics_leave_of_the_plate_appearances() {
    let plans = batting_plans(vec![plain_batter("aged01", 2015, 600)]);
    assert_eq!(plans[0].projected_pa, 500);
    let projection = BattingProjection::finalize(&plans[0], rounded_batting(48, 5, 4, 1));
    assert_eq!(projection.playerid(), "aged01");
    assert_eq!(projection.year(), 2016);
    assert_eq!(projection.age(), Some(26));
    assert_eq!(projection.pa(), 500);
    assert_eq!(projection.ab(), 500 - (48 + 5 + 4 + 1));
    let stats = projection.stats();
    assert_eq!(stats.r, 61);
    assert_eq!(stats.h, 124);
    assert_eq!(stats.double, 22);
    assert_eq!(stats.triple, 2);
    assert_eq!(stats.hr, 14);
    assert_eq!(stats.rbi, 58);
    assert_eq!(stats.sb, 6);
    assert_eq!(stats.cs, 2);
    assert_eq!(stats.bb, 48);
    assert_eq!(stats.so, 88);
    assert_eq!(stats.ibb, 3);
    assert_eq!(stats.hbp, 5);
    assert_eq!(stats.sh, 1);
    assert_eq!(stats.sf, 4);
    assert_eq!(stats.gidp, 9);
}

#[test]
fn at_bats_hold_for_any_rounded_statistics() {
    let plans = batting_plans(vec![plain_batter("aged01", 2015, 600)]);
    let cases = [
        (0, 0, 0, 0),
        (500, 0, 0, 0),
        (300, 200, 100, 50),
        (i32::MAX, i32::MAX, i32::MAX, i32::MAX),
        (i32::MIN, i32::MIN, i32::MIN, i32::MIN),
        (-3, 7, -11, 13),
    ];
    for &(bb, hbp, sf, sh) in cases.iter() {
        let projection = BattingProjection::finalize(&plans[0], rounded_batting(bb, hbp, sf, sh));
        let stats = projection.stats();
        assert_eq!(
            projection.ab(),
            projection.pa() as i64
                - (stats.bb as i64 + stats.hbp as i64 + stats.sf as i64 + stats.sh as i64)
        );
        assert_eq!(projection.ab(), 500 - (bb as i64 + hbp as i64 + sf as i64 + sh as i64));
    }
}

#[test]
fn innings_are_a_third_of_the_outs_rounded() {
    // 200 + 0.5 * 601 outs are forecast, which is 500 outs and so 167 innings.
    let plans = pitching_plans(vec![plain_pitcher("p", 2015, 601)]);
    assert_eq!(plans[0].projected_ipouts, 500);
    let projection = PitchingProjection::finalize(&plans[0], rounded_pitching(60));
    assert_eq!(projection.ip(), 167);
    // 200 + 0.5 * 598 outs are forecast, which is 499 outs and so 166 innings.
    let plans = pitching_plans(vec![plain_pitcher("p", 2015, 598)]);
    assert_eq!(plans[0].projected_ipouts, 499);
    let projection = PitchingProjection::finalize(&plans[0], rounded_pitching(60));
    assert_eq!(projection.ip(), 166);
    let plans = pitching_plans(vec![plain_pitcher("p", 2015, 600)]);
    assert_eq!(PitchingProjection::finalize(&plans[0], rounded_pitching(60)).ip(), 167);
}

#[test]
fn the_earned_run_average_comes_from_the_rounded_earned_runs_and_innings() {
    let plans = pitching_plans(vec![plain_pitcher("p", 2015, 601)]);
    let projection = PitchingProjection::finalize(&plans[0], rounded_pitching(60));
    assert_eq!(projection.playerid(), "p");
    assert_eq!(projection.year(), 2016);
    assert_eq!(projection.age(), None);
    assert_eq!(projection.ip(), 167);
    // 60 * 9 / 167 = 3.2335...
    assert_eq!(projection.era(), Some(323));
    let stats = projection.stats();
    assert_eq!(stats.er, 60);
    assert_eq!(stats.w, 9);
    assert_eq!(stats.l, 8);
    assert_eq!(stats.sv, 1);
    assert_eq!(stats.h, 140);
    assert_eq!(stats.r, 65);
    assert_eq!(stats.hr, 15);
    assert_eq!(stats.so, 130);
    assert_eq!(stats.bb, 40);
    assert_eq!(stats.ibb, 2);
    assert_eq!(stats.hbp, 4);
    assert_eq!(stats.wp, 3);
    assert_eq!(stats.bk, 0);

    // 65 * 9 / 167 = 3.50299..., 93 * 9 / 167 = 5.01197..., none allowed is none.
    assert_eq!(PitchingProjection::finalize(&plans[0], rounded_pitching(65)).era(), Some(350));
    assert_eq!(PitchingProjection::finalize(&plans[0], rounded_pitching(93)).era(), Some(501));
    assert_eq!(PitchingProjection::finalize(&plans[0], rounded_pitching(0)).era(), Some(0));
    for er in 0..400 {
        let projection = PitchingProjection::finalize(&plans[0], rounded_pitching(er));
        let exact = projection.stats().er as f64 * 9.0 / projection.ip() as f64;
        assert_eq!(projection.era(), Some((exact * 100.0).round() as i64));
    }
}

#[test]
fn projections_come_in_the_order_of_the_plans() {
    let plans = batting_plans(vec![
        plain_batter("c", 2015, 600),
        plain_batter("a", 2015, 400),
        plain_batter("b", 2014, 200),
    ]);
    let rounded = vec![
        rounded_batting(10, 1, 1, 1),
        rounded_batting(20, 2, 2, 2),
        rounded_batting(30, 3, 3, 3),
    ];
    let list = finalize_batting(&plans, &rounded).unwrap();
    let got: Vec<(&str, u32, i64, i32)> = list.iter()
        .map(|p| (p.playerid().as_str(), p.pa(), p.ab(), p.stats().bb))
        .collect();
    assert_eq!(got, vec![("a", 400, 387, 10), ("b", 220, 194, 20), ("c", 500, 461, 30)]);
    assert!(list[0].precedes(&list[1]));
    assert!(list[1].precedes(&list[2]));
    assert!(!list[1].precedes(&list[0]));
    assert!(!list[1].precedes(&list[1]));

    let plans = pitching_plans(vec![plain_pitcher("q", 2015, 600), plain_pitcher("p", 2015, 300)]);
    let rounded = vec![rounded_pitching(30), rounded_pitching(60)];
    let list = finalize_pitching(&plans, &rounded).unwrap();
    let got: Vec<(&str, u32, Option<i64>)> = list.iter()
        .map(|p| (p.playerid().as_str(), p.ip(), p.era()))
        .collect();
    // 350 outs are 117 innings, 500 outs are 167.
    assert_eq!(got, vec![("p", 117, Some(231)), ("q", 167, Some(323))]);
    assert!(list[0].precedes(&list[1]));
    assert!(!list[1].precedes(&list[0]));
}

#[test]
fn there_is_no_list_without_one_set_of_statistics_for_each_plan() {
    let plans = batting_plans(vec![plain_batter("c", 2015, 600), plain_batter("a", 2015, 400)]);
    assert!(finalize_batting(&plans, &vec![rounded_batting(10, 1, 1, 1)]).is_none());
    assert!(finalize_batting(&plans, &Vec::new()).is_none());
    let none: Vec<BattingPlan> = Vec::new();
    assert!(finalize_batting(&none, &Vec::new()).unwrap().is_empty());

    let plans = pitching_plans(vec![plain_pitcher("q", 2015, 600)]);
    assert!(finalize_pitching(&plans, &Vec::new()).is_none());
    let two = vec![rounded_pitching(1), rounded_pitching(2)];
    assert!(finalize_pitching(&plans, &two).is_none());
    let none: Vec<PitchingPlan> = Vec::new();
    assert!(finalize_pitching(&none, &Vec::new()).unwrap().is_empty());
}
