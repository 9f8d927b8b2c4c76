use capuchin::forecast::{forecast_opportunities, AgeAdjustment};

#[test]
fn a_player_without_seasons_is_forecast_the_base() {
    assert_eq!(forecast_opportunities(0, 0), 200);
}

#[test]
fn last_year_counts_half_and_the_year_before_a_tenth() {
    assert_eq!(forecast_opportunities(600, 0), 500);
    assert_eq!(forecast_opportunities(0, 600), 260);
    assert_eq!(forecast_opportunities(600, 500), 550);
    assert_eq!(forecast_opportunities(700, 650), 615);
}

#[test]
fn the_fraction_of_an_opportunity_is_dropped() {
    assert_eq!(forecast_opportunities(1, 0), 200);
    assert_eq!(forecast_opportunities(2, 0), 201);
    assert_eq!(forecast_opportunities(0, 9), 200);
    assert_eq!(forecast_opportunities(0, 10), 201);
    assert_eq!(forecast_opportunities(1, 5), 201);
    assert_eq!(forecast_opportunities(1, 4), 200);
    assert_eq!(forecast_opportunities(601, 509), 551);
}

#[test]
fn the_forecast_agrees_with_the_arithmetic_of_single_precision() {
    let mut last: u32 = 0;
    while last <= 65535 {
        let mut before: u32 = 0;
        while before <= 65535 {
            let mut projected: f32 = 200.0;
            projected += 0.1 * before as f32;
            projected += 0.5 * last as f32;
            assert_eq!(forecast_opportunities(last, before), projected as u32);
            before += 257;
        }
        last += 251;
    }
    // Where the exact forecast is a whole number, nothing may be lost to rounding.
    let mut last: u32 = 1;
    while last <= 65535 {
        let mut before: u32 = 5;
        while before <= 65535 {
            let mut projected: f32 = 200.0;
            projected += 0.1 * before as f32;
            projected += 0.5 * last as f32;
            assert_eq!(forecast_opportunities(last, before), projected as u32);
            before += 370;
        }
        last += 82;
    }
}

#[test]
fn the_largest_seasons_are_forecast_without_overflow() {
    assert_eq!(forecast_opportunities(65535, 65535), 39521);
    assert_eq!(forecast_opportunities(u32::MAX, u32::MAX), 2576980577);
}

fn is_adjustment(adjustment: AgeAdjustment, expected: &str) -> bool {
    format!("{:?}", adjustment) == expected
}

#[test]
fn a_player_at_the_peak_or_of_unknown_age_is_not_adjusted() {
    assert!(is_adjustment(AgeAdjustment::new(27, Some(27)), "Unchanged"));
    assert!(is_adjustment(AgeAdjustment::new(27, None), "Unchanged"));
    assert_eq!(AgeAdjustment::new(27, Some(27)).per_mille(), 1000);
    assert_eq!(AgeAdjustment::new(27, None).per_mille(), 1000);
}

#[test]
fn a_player_past_the_peak_declines_gently() {
    let adjustment = AgeAdjustment::new(27, Some(30));
    assert!(is_adjustment(adjustment, "Decline { years: 3 }"));
    assert_eq!(adjustment.per_mille(), 991);
    assert_eq!(AgeAdjustment::new(27, Some(28)).per_mille(), 997);
    assert_eq!(AgeAdjustment::new(0, Some(255)).per_mille(), 235);
}

#[test]
fn a_player_short_of_the_peak_improves_twice_as_fast() {
    let adjustment = AgeAdjustment::new(27, Some(22));
    assert!(is_adjustment(adjustment, "Improve { years: 5 }"));
    assert_eq!(adjustment.per_mille(), 1030);
    assert_eq!(AgeAdjustment::new(27, Some(26)).per_mille(), 1006);
    assert_eq!(AgeAdjustment::new(255, Some(0)).per_mille(), 2530);
}
