use capuchin::databank::{
    BattingSeason, LoadError, PitchingSeason, Player, PlayerType, Players, RawBattingSeason,
    RawPitchingSeason,
};

fn batting_row(playerid: &str, yearid: u16, ab: u16) -> RawBattingSeason {
    RawBattingSeason {
        playerid: String::from(playerid),
        yearid,
        g: 1,
        ab,
        r: 0,
        h: 0,
        double: 0,
        triple: 0,
        hr: 0,
        rbi: None,
        sb: None,
        cs: None,
        bb: 0,
        so: None,
        ibb: None,
        hbp: None,
        sh: None,
        sf: None,
        gidp: None,
    }
}

fn pitching_row(playerid: &str, yearid: u16, ipouts: u16) -> RawPitchingSeason {
    RawPitchingSeason {
        playerid: String::from(playerid),
        yearid,
        w: 0,
        l: 0,
        sv: 0,
        ipouts,
        h: 0,
        r: 0,
        er: 0,
        hr: 0,
        bb: 0,
        so: 0,
        ibb: None,
        wp: None,
        hbp: None,
        bk: 0,
    }
}

fn batting_stint(playerid: &str, yearid: u16, pa: u16) -> BattingSeason {
    BattingSeason::from_raw(batting_row(playerid, yearid, pa)).unwrap()
}

fn pitching_stint(playerid: &str, yearid: u16, ipouts: u16) -> PitchingSeason {
    PitchingSeason::from_raw(pitching_row(playerid, yearid, ipouts))
}

fn is_kind(kind: PlayerType, expected: &str) -> bool {
    format!("{:?}", kind) == expected
}

#[test]
fn a_new_player_has_no_appearances() {
    let player = Player::new();
    assert_eq!(player.pa_in(2015), 0);
    assert_eq!(player.ipouts_in(2015), 0);
    assert!(is_kind(player.player_type(2015), "NoAppearances"));
    assert!(!player.is_batter(2015));
    assert!(!player.is_pitcher(2015));
}

#[test]
fn opportunities_add_up_by_year() {
    let mut player = Player::new();
    player.add_pa(&batting_stint("a", 2015, 300));
    player.add_pa(&batting_stint("a", 2015, 250));
    player.add_pa(&batting_stint("a", 2014, 100));
    player.add_ip(&pitching_stint("a", 2015, 30));
    player.add_ip(&pitching_stint("a", 2015, 12));
    assert_eq!(player.pa_in(2015), 550);
    assert_eq!(player.pa_in(2014), 100);
    assert_eq!(player.pa_in(2013), 0);
    assert_eq!(player.ipouts_in(2015), 42);
    assert_eq!(player.ipouts_in(2014), 0);
}

#[test]
fn a_copy_of_a_player_holds_the_same_record() {
    let mut player = Player::new();
    player.add_pa(&batting_stint("a", 2015, 300));
    player.add_ip(&pitching_stint("a", 2015, 30));
    let copy = player.duplicate();
    player.add_pa(&batting_stint("a", 2015, 1));
    assert_eq!(copy.pa_in(2015), 300);
    assert_eq!(copy.ipouts_in(2015), 30);
    assert_eq!(player.pa_in(2015), 301);
}

#[test]
fn more_plate_appearances_than_innings_make_a_batter() {
    let mut player = Player::new();
    player.add_pa(&batting_stint("a", 2015, 11));
    player.add_ip(&pitching_stint("a", 2015, 30));
    assert!(is_kind(player.player_type(2015), "Batter"));
    assert!(player.is_batter(2015));
    assert!(!player.is_pitcher(2015));
}

#[test]
fn more_innings_than_plate_appearances_make_a_pitcher() {
    let mut player = Player::new();
    player.add_pa(&batting_stint("a", 2015, 9));
    player.add_ip(&pitching_stint("a", 2015, 30));
    assert!(is_kind(player.player_type(2015), "Pitcher"));
    assert!(!player.is_batter(2015));
    assert!(player.is_pitcher(2015));
}

#[test]
fn as_many_innings_as_plate_appearances_leave_the_position_open() {
    let mut player = Player::new();
    player.add_pa(&batting_stint("a", 2015, 10));
    player.add_ip(&pitching_stint("a", 2015, 32));
    assert!(is_kind(player.player_type(2015), "Unknown"));
    assert!(player.is_batter(2015));
    assert!(player.is_pitcher(2015));
}

#[test]
fn one_or_two_outs_count_as_one_inning() {
    let mut player = Player::new();
    player.add_pa(&batting_stint("a", 2015, 1));
    player.add_ip(&pitching_stint("a", 2015, 2));
    assert!(is_kind(player.player_type(2015), "Unknown"));
    player.add_pa(&batting_stint("a", 2016, 0));
    player.add_ip(&pitching_stint("a", 2016, 1));
    assert!(is_kind(player.player_type(2016), "Pitcher"));
    player.add_pa(&batting_stint("a", 2017, 1));
    player.add_ip(&pitching_stint("a", 2017, 0));
    assert!(is_kind(player.player_type(2017), "Unknown"));
}

#[test]
fn a_record_of_one_kind_alone_makes_a_batter() {
    let mut player = Player::new();
    player.add_pa(&batting_stint("a", 2015, 0));
    assert!(is_kind(player.player_type(2015), "Batter"));
    player.add_ip(&pitching_stint("a", 2016, 600));
    assert!(is_kind(player.player_type(2016), "Batter"));
    assert!(player.is_batter(2016));
    assert!(!player.is_pitcher(2016));
}

#[test]
fn new_players_hold_nothing() {
    let players = Players::new();
    assert!(players.batting_seasons(0, 65535).is_empty());
    assert!(players.pitching_seasons(0, 65535).is_empty());
}

#[test]
fn seasons_are_chosen_by_year_in_the_order_of_loading() {
    let mut players = Players::new();
    let rows = vec![
        batting_row("b", 2015, 500),
        batting_row("a", 2013, 400),
        batting_row("a", 2014, 410),
        batting_row("c", 2012, 300),
        batting_row("a", 2015, 420),
        batting_row("c", 2016, 310),
    ];
    assert!(players.load_batting(rows).is_ok());
    let seasons = players.batting_seasons(2013, 2015);
    let got: Vec<(&str, u16, u16)> = seasons.iter()
        .map(|s| (s.playerid.as_str(), s.yearid, s.pa))
        .collect();
    assert_eq!(got, vec![("b", 2015, 500), ("a", 2013, 400), ("a", 2014, 410), ("a", 2015, 420)]);
    assert_eq!(players.batting_seasons(2016, 2016).len(), 1);
    assert!(players.batting_seasons(2015, 2013).is_empty());
    assert!(players.pitching_seasons(2012, 2016).is_empty());
}

#[test]
fn pitching_seasons_are_chosen_by_year_in_the_order_of_loading() {
    let mut players = Players::new();
    let rows = vec![
        pitching_row("p", 2015, 500),
        pitching_row("q", 2013, 400),
        pitching_row("p", 2016, 410),
    ];
    assert!(players.load_pitching(rows).is_ok());
    let seasons = players.pitching_seasons(2015, 2016);
    let got: Vec<(&str, u16, u16)> = seasons.iter()
        .map(|s| (s.playerid.as_str(), s.yearid, s.ipouts))
        .collect();
    assert_eq!(got, vec![("p", 2015, 500), ("p", 2016, 410)]);
    assert!(players.batting_seasons(2012, 2016).is_empty());
}

#[test]
fn loading_stops_at_a_row_with_too_many_plate_appearances() {
    let mut players = Players::new();
    let mut bad = batting_row("b", 2015, 65535);
    bad.bb = 1;
    let rows = vec![batting_row("a", 2015, 500), bad, batting_row("c", 2015, 300)];
    match players.load_batting(rows) {
        Err(LoadError::PlateAppearances { row }) => assert_eq!(row, 1),
        other => panic!("unexpected {:?}", other),
    }
    let seasons = players.batting_seasons(2015, 2015);
    assert_eq!(seasons.len(), 1);
    assert_eq!(seasons[0].playerid, "a");
}

#[test]
fn loading_stops_where_a_year_of_a_player_passes_the_limit() {
    let mut players = Players::new();
    let rows = vec![
        batting_row("a", 2015, 40000),
        batting_row("b", 2015, 40000),
        batting_row("a", 2014, 40000),
        batting_row("a", 2015, 25535),
        batting_row("a", 2015, 1),
        batting_row("c", 2015, 300),
    ];
    match players.load_batting(rows) {
        Err(fault) => {
            assert!(matches!(fault, LoadError::SeasonTotal { row: 4 }));
            assert_eq!(fault.row(), 4);
        }
        other => panic!("unexpected {:?}", other),
    }
    assert_eq!(players.batting_seasons(0, 65535).len(), 4);
}

#[test]
fn loading_pitching_stops_where_a_year_of_a_player_passes_the_limit() {
    let mut players = Players::new();
    let rows = vec![pitching_row("a", 2015, 65535), pitching_row("a", 2015, 1)];
    match players.load_pitching(rows) {
        Err(fault) => {
            assert!(matches!(fault, LoadError::SeasonTotal { row: 1 }));
            assert_eq!(fault.row(), 1);
        }
        other => panic!("unexpected {:?}", other),
    }
    assert_eq!(players.pitching_seasons(0, 65535).len(), 1);
}

#[test]
fn a_single_season_is_added_or_refused() {
    let mut players = Players::new();
    assert!(players.add_batting(batting_stint("a", 2015, 65535)));
    assert!(!players.add_batting(batting_stint("a", 2015, 1)));
    assert!(players.add_batting(batting_stint("a", 2015, 0)));
    assert!(players.add_batting(batting_stint("a", 2016, 1)));
    assert_eq!(players.batting_seasons(2015, 2016).len(), 3);
    assert!(players.add_pitching(pitching_stint("a", 2015, 65535)));
    assert!(!players.add_pitching(pitching_stint("a", 2015, 1)));
    assert!(players.add_pitching(pitching_stint("b", 2015, 1)));
    assert_eq!(players.pitching_seasons(2015, 2016).len(), 2);
}

#[test]
fn a_season_is_in_position_by_the_record_of_its_year() {
    let mut players = Players::new();
    // A batter who pitched an inning, a pitcher who came to bat, and one who did as much of
    // both.
    assert!(players.load_batting(vec![
        batting_row("batter", 2015, 600),
        batting_row("pitcher", 2015, 5),
        batting_row("both", 2015, 10),
    ]).is_ok());
    assert!(players.load_pitching(vec![
        pitching_row("batter", 2015, 3),
        pitching_row("pitcher", 2015, 600),
        pitching_row("both", 2015, 30),
    ]).is_ok());
    assert!(players.player_is_batter(&batting_stint("batter", 2015, 600)));
    assert!(!players.player_is_pitcher(&pitching_stint("batter", 2015, 3)));
    assert!(!players.player_is_batter(&batting_stint("pitcher", 2015, 5)));
    assert!(players.player_is_pitcher(&pitching_stint("pitcher", 2015, 600)));
    assert!(players.player_is_batter(&batting_stint("both", 2015, 10)));
    assert!(players.player_is_pitcher(&pitching_stint("both", 2015, 30)));
    // Nothing is on record for the year, or for the player.
    assert!(!players.player_is_batter(&batting_stint("batter", 2014, 1)));
    assert!(!players.player_is_pitcher(&pitching_stint("pitcher", 2014, 1)));
    assert!(players.player_is_batter(&batting_stint("nobody", 2015, 1)));
    assert!(players.player_is_pitcher(&pitching_stint("nobody", 2015, 1)));
}

#[test]
fn players_out_of_position_are_removed() {
    let mut players = Players::new();
    assert!(players.load_batting(vec![
        batting_row("batter", 2015, 600),
        batting_row("pitcher", 2015, 5),
        batting_row("both", 2015, 10),
        batting_row("pitcher", 2014, 300),
        batting_row("batter", 2015, 20),
    ]).is_ok());
    assert!(players.load_pitching(vec![
        pitching_row("batter", 2015, 3),
        pitching_row("pitcher", 2015, 600),
        pitching_row("both", 2015, 30),
        pitching_row("pitcher", 2014, 3),
    ]).is_ok());
    players.remove_out_of_position_players();
    let batting: Vec<(&str, u16, u16)> = players.batting_seasons(0, 65535).iter()
        .map(|s| (s.playerid.as_str(), s.yearid, s.pa))
        .collect();
    assert_eq!(
        batting,
        vec![("batter", 2015, 600), ("both", 2015, 10), ("pitcher", 2014, 300), ("batter", 2015, 20)]
    );
    let pitching: Vec<(&str, u16, u16)> = players.pitching_seasons(0, 65535).iter()
        .map(|s| (s.playerid.as_str(), s.yearid, s.ipouts))
        .collect();
    assert_eq!(pitching, vec![("pitcher", 2015, 600), ("both", 2015, 30)]);
    // The opportunities on record stay, so a second pass removes nothing more.
    players.remove_out_of_position_players();
    assert_eq!(players.batting_seasons(0, 65535).len(), 4);
    assert_eq!(players.pitching_seasons(0, 65535).len(), 2);
}

#[test]
fn pitchers_without_a_batting_record_are_removed_as_batters() {
    let mut players = Players::new();
    assert!(players.load_pitching(vec![pitching_row("pitcher", 2015, 600)]).is_ok());
    players.remove_out_of_position_players();
    assert!(players.pitching_seasons(0, 65535).is_empty());
}

#[test]
fn loading_one_table_after_another_is_loading_both_as_one() {
    let rows = || vec![
        batting_row("b", 2015, 500),
        batting_row("a", 2013, 400),
        batting_row("a", 2013, 410),
        batting_row("c", 2012, 300),
    ];
    let mut at_once = Players::new();
    assert!(at_once.load_batting(rows()).is_ok());
    let mut in_turn = Players::new();
    let mut first = rows();
    let second = first.split_off(1);
    assert!(in_turn.load_batting(first).is_ok());
    assert!(in_turn.load_batting(second).is_ok());
    let seen = |players: &Players| -> Vec<(String, u16, u16)> {
        players.batting_seasons(0, 65535).iter()
            .map(|s| (s.playerid.clone(), s.yearid, s.pa))
            .collect()
    };
    assert_eq!(seen(&at_once), seen(&in_turn));
    assert_eq!(seen(&at_once).len(), 4);
    // The year of the player is counted the same way: 810 plate appearances are on record.
    assert!(!at_once.add_batting(batting_stint("a", 2013, 65535 - 809)));
    assert!(!in_turn.add_batting(batting_stint("a", 2013, 65535 - 809)));
    assert!(at_once.add_batting(batting_stint("a", 2013, 65535 - 810)));
    assert!(in_turn.add_batting(batting_stint("a", 2013, 65535 - 810)));
}
