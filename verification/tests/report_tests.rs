use lunar_lander::fixed::Fixed;
use lunar_lander::lander::{Kinematics, Lander};
use lunar_lander::outcome::OutcomeCategory;
use lunar_lander::report::{end_game, landing_report, status, LandingReport, Readout};

fn raw(x: i128) -> Fixed {
    Fixed::from_raw(x)
}

/// The number that a decimal numeral with at most fifteen fractional digits denotes.
fn num(text: &str) -> Fixed {
    let (sign, digits) = match text.strip_prefix('-') {
        Some(rest) => (-1, rest),
        None => (1, text),
    };
    let (whole, fraction) = match digits.split_once('.') {
        Some((whole, fraction)) => (whole, fraction),
        None => (digits, ""),
    };
    let mut value: i128 = whole.parse().unwrap();
    let mut places = 0;
    for digit in fraction.chars() {
        value = value * 10 + digit.to_digit(10).unwrap() as i128;
        places += 1;
    }
    while places < 15 {
        value *= 10;
        places += 1;
    }
    Fixed::from_raw(sign * value)
}

fn craft(elapsed_time: i128, velocity: i128, altitude: i128, fuel: i128) -> Lander {
    let mut lem = Lander::new_session(num("16500"), raw(fuel), raw(0), raw(0), num("1.8")).unwrap();
    let next = Kinematics { velocity: raw(velocity), altitude: raw(altitude), elapsed_time: raw(0) };
    lem.update_status(raw(0), raw(elapsed_time), &next, raw(elapsed_time)).unwrap();
    lem
}

#[test]
fn panel_at_the_start() {
    let lem = craft(0, num("1").raw, num("120").raw, num("16500").raw);
    assert_eq!(status(&lem), Readout { seconds: 0, miles: 120, feet: 0, mph: 3600, fuel: 16500 });
}

#[test]
fn panel_in_flight() {
    let lem = craft(80_000_000_000_000_000, 984_798_975_000_000, 37_271_809_376_000_000, 14_800_000_000_000_000_000);
    // 0.271809376 miles are 1435.15 feet, 0.984798975 miles a second are 3545.28 miles an hour
    assert_eq!(status(&lem), Readout { seconds: 80, miles: 37, feet: 1435, mph: 3545, fuel: 14800 });
}

#[test]
fn panel_rounds_towards_zero() {
    let lem = craft(10_000_000_000_000_000, -101_536_623_000_000, 120_496_820_310_000_000, 14_500_000_000_000_000_000);
    assert_eq!(status(&lem), Readout { seconds: 10, miles: 120, feet: 2623, mph: -365, fuel: 14500 });
    let lem = craft(-5, 5, -500_000_000_000_000, 0);
    assert_eq!(status(&lem), Readout { seconds: 0, miles: 0, feet: -2640, mph: 0, fuel: 0 });
    let lem = craft(999_999_999_000_000, -277_777_000_000, -1_000_000_001_000_000, 999_999_999_000_000);
    assert_eq!(status(&lem), Readout { seconds: 0, miles: -1, feet: 0, mph: 0, fuel: 0 });
}

#[test]
fn panel_without_a_sign_shows_zero_for_negative_time() {
    let lem = craft(num("-7").raw, 0, 0, 0);
    assert_eq!(status(&lem).seconds, 0);
}

#[test]
fn panel_of_large_readings() {
    let lem = craft(10_000_000_000_000_000_000_000_000_000_000_000_000, 10_000_000_000_000_000_000_000_000_000_000_000_000, 10_000_000_000_000_000_000_000_000_000_000_000_000, 10_000_000_000_000_000_000_000_000_000_000_000_000);
    assert_eq!(status(&lem), Readout { seconds: 10000000000000000000000, miles: 10000000000000000000000, feet: 0, mph: 36000000000000000000000000, fuel: 10000000000000000000000 });
    let lem = craft(-10_000_000_000_000_000_000_000_000_000_000_000_000, i128::MIN, i128::MIN, 0);
    assert_eq!(status(&lem), Readout { seconds: 0, miles: -170141183460469231731687, feet: -1603, mph: -612508260457689234234074293, fuel: 0 });
    let lem = craft(0, i128::MAX, i128::MAX, 0);
    assert_eq!(status(&lem), Readout { seconds: 0, miles: 170141183460469231731687, feet: 1603, mph: 612508260457689234234074293, fuel: 0 });
}

#[test]
fn report_on_a_crash() {
    assert_eq!(landing_report(raw(458_305_208_028_219_600), raw(142_633_367_621_466_034)), LandingReport { seconds: 142, mph: 458, category: OutcomeCategory::Crater { depth: raw(104_035_282_222_405_849) }, crater_feet: 104 });
}

#[test]
fn report_on_a_landing() {
    assert_eq!(landing_report(num("0.8818308"), num("0.044953154")), LandingReport { seconds: 0, mph: 0, category: OutcomeCategory::Perfect, crater_feet: 0 });
    assert_eq!(landing_report(num("6.2353836"), num("0.732051022")), LandingReport { seconds: 0, mph: 6, category: OutcomeCategory::Good, crater_feet: 0 });
    assert_eq!(landing_report(num("24.1495344"), num("1.708204068")), LandingReport { seconds: 1, mph: 24, category: OutcomeCategory::Stranded, crater_feet: 0 });
    assert_eq!(landing_report(num("-3.5"), raw(-1)), LandingReport { seconds: 0, mph: -3, category: OutcomeCategory::Perfect, crater_feet: 0 });
}

#[test]
fn report_at_the_thresholds() {
    assert_eq!(landing_report(num("1.199999999999999"), raw(0)).category, OutcomeCategory::Perfect);
    assert_eq!(landing_report(num("1.2"), raw(0)).category, OutcomeCategory::Good);
    assert_eq!(landing_report(num("10"), raw(0)).category, OutcomeCategory::Good);
    assert_eq!(landing_report(num("60"), raw(0)).category, OutcomeCategory::Stranded);
    assert_eq!(landing_report(num("60.0001"), raw(0)), LandingReport { seconds: 0, mph: 60, category: OutcomeCategory::Crater { depth: raw(13_620_022_700_000_000) }, crater_feet: 13 });
}

#[test]
fn end_game_reports_on_the_craft() {
    let lem = craft(142_633_367_621_466_034, 127_307_002_230_061, 3_442, 2_273_326_475_706_793_200);
    assert_eq!(end_game(&lem), Some(landing_report(raw(458_305_208_028_219_600), raw(142_633_367_621_466_034))));
    let lem = craft(num("0.044953154").raw, num("0.000244953").raw, 1, 0);
    assert_eq!(end_game(&lem), Some(LandingReport { seconds: 0, mph: 0, category: OutcomeCategory::Perfect, crater_feet: 0 }));
}

#[test]
fn end_game_fails_where_the_speed_is_beyond_the_range() {
    let lem = craft(0, 47_261_439_850_130_342_148, 0, 0);
    assert_eq!(end_game(&lem), None);
    let lem = craft(0, 47_261_439_850_130_342_147, 0, 0);
    assert_eq!(end_game(&lem).map(|report| report.mph), Some(170141183));
}
