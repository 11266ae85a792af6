use lunar_lander::fixed::Fixed;
use lunar_lander::lander::{Fault, Kinematics, Lander};
use lunar_lander::stepper::{
    burn_rate_allowed, impact_speed, landing, next_move, out_of_fuel, run_period, Move,
    PeriodOutcome, PERIOD,
};

fn raw(x: i128) -> Fixed {
    Fixed::from_raw(x)
}

/// The number that a decimal numeral with at most fifteen fractional digits denotes.
fn num(text: &str) -> Fixed {
    let (sign, digits) = match text.strip_prefix('-') {
        Some(rest) => (-1, rest),
        None => (1, text),
    };
    let (whole, fraction) = match digits.split_once('.') {
        Some((whole, fraction)) => (whole, fraction),
        None => (digits, ""),
    };
    let mut value: i128 = whole.parse().unwrap();
    let mut places = 0;
    for digit in fraction.chars() {
        value = value * 10 + digit.to_digit(10).unwrap() as i128;
        places += 1;
    }
    while places < 15 {
        value *= 10;
        places += 1;
    }
    Fixed::from_raw(sign * value)
}

fn session(dry: &str, fuel: &str, velocity: &str, altitude: &str, exhaust: &str) -> Lander {
    Lander::new_session(num(dry), num(fuel), num(velocity), num(altitude), num(exhaust)).unwrap()
}

fn standard() -> Lander {
    session("16500", "16500", "1", "120", "1.8")
}

fn state(lem: &Lander) -> (i128, i128, i128, i128) {
    (lem.phys().elapsed_time.raw, lem.phys().velocity.raw, lem.phys().altitude.raw, lem.fuel().raw)
}

#[test]
fn burn_rates_from_zero_to_two_hundred_are_allowed() {
    assert!(burn_rate_allowed(num("0")));
    assert!(burn_rate_allowed(num("200")));
    assert!(burn_rate_allowed(num("164.31")));
    assert!(!burn_rate_allowed(raw(-1)));
    assert!(!burn_rate_allowed(num("200.000000000000001")));
}

#[test]
fn out_of_fuel_comes_first() {
    let lem = session("16500", "0.0005", "1", "120", "1.8");
    assert_eq!(next_move(&lem, num("200"), raw(PERIOD)), Some(Move::FreeFall));
    assert_eq!(next_move(&lem, num("200"), raw(0)), Some(Move::FreeFall));
    assert_eq!(next_move(&lem, raw(i128::MAX), raw(PERIOD)), Some(Move::FreeFall));
}

#[test]
fn period_ends_with_no_more_than_a_thousandth_left() {
    assert_eq!(next_move(&standard(), num("200"), num("0.000999999999999")), Some(Move::EndPeriod));
    assert_eq!(next_move(&standard(), num("200"), num("0.001")), Some(Move::EndPeriod));
    assert_eq!(next_move(&standard(), num("200"), raw(-PERIOD)), Some(Move::EndPeriod));
    assert_ne!(next_move(&standard(), num("200"), num("0.001000000000001")), Some(Move::EndPeriod));
}

#[test]
fn advance_where_nothing_else_applies() {
    assert_eq!(next_move(&standard(), num("200"), raw(PERIOD)), Some(Move::Advance { burn_time: raw(10_000_000_000_000_000), next: Kinematics { velocity: raw(897_463_373_115_996), altitude: raw(110_506_820_379_956_286), elapsed_time: raw(0) }, corrected: false }));
}

#[test]
fn advance_is_cut_short_by_the_fuel() {
    let lem = session("16500", "500", "1", "120", "1.8");
    assert_eq!(next_move(&lem, num("200"), raw(PERIOD)), Some(Move::Advance { burn_time: raw(2_500_000_000_000_000), next: Kinematics { velocity: raw(948_764_666_529_803), altitude: raw(117_563_709_972_201_411), elapsed_time: raw(0) }, corrected: false }));
    match next_move(&lem, num("200"), raw(PERIOD)) {
        Some(Move::Advance { burn_time, .. }) => assert_eq!(burn_time, num("2.5")),
        other => panic!("unexpected step {:?}", other),
    }
}

#[test]
fn touchdown_where_the_burn_ends_below_the_surface() {
    let lem = session("16500", "16500", "1", "5", "1.8");
    assert_eq!(
        next_move(&lem, num("200"), raw(PERIOD)),
        Some(Move::Touchdown { estimate: raw(PERIOD), corrected: false })
    );
    assert_eq!(
        next_move(&lem, num("0"), num("5")),
        Some(Move::Touchdown { estimate: num("5"), corrected: false })
    );
    assert_eq!(next_move(&lem, num("0"), num("3")), Some(Move::Advance { burn_time: raw(3_000_000_000_000_000), next: Kinematics { velocity: raw(1_003_000_000_000_000), altitude: raw(1_995_500_000_000_000), elapsed_time: raw(0) }, corrected: false }));
}

#[test]
fn burn_time_is_corrected_where_the_velocity_changes_sign() {
    let lem = session("16500", "16500", "0.001", "120", "1.8");
    let uncorrected = lem.calc_dynamics(num("200"), raw(PERIOD)).unwrap();
    assert!(lem.phys().velocity.raw > 0 && uncorrected.velocity.raw < 0);
    assert_eq!(next_move(&lem, num("200"), raw(PERIOD)), Some(Move::Advance { burn_time: raw(150_849_570_403_000), next: Kinematics { velocity: raw(-495_534_816_528), altitude: raw(119_999_961_931_891_799), elapsed_time: raw(0) }, corrected: true }));
    match next_move(&lem, num("200"), raw(PERIOD)) {
        Some(Move::Advance { burn_time, corrected, .. }) => {
            assert!(corrected);
            assert_eq!(Some(burn_time), lem.calc_upward_burn_time(num("200")));
        }
        other => panic!("unexpected step {:?}", other),
    }
}

#[test]
fn correction_goes_on_at_the_least_velocity() {
    // one part in a billion of velocity, thrust below the weight
    let mut lem = session("16500", "1500", "0.000000001", "120", "1.8");
    assert_eq!(next_move(&lem, num("10"), raw(PERIOD)), Some(Move::Advance { burn_time: raw(92_426_389_899_993), next: Kinematics { velocity: raw(-1_373_035), altitude: raw(119_999_999_999_980_684), elapsed_time: raw(0) }, corrected: true }));
    assert_eq!(run_period(&mut lem, num("10")), Ok(PeriodOutcome::Continuing));
    assert_eq!(state(&lem), (10_000_000_000_000_000, -27_880_089_004, 120_000_092_840_654_697, 1_400_000_000_000_000_000));
}

#[test]
fn corrected_step_lasts_as_long_as_the_correction_says() {
    // with 0.002 of the period left the corrected step overruns the period
    let mut lem = session("16500", "16500", "0.000000001", "120", "1.8");
    let turn = lem.calc_upward_burn_time(num("200")).unwrap();
    assert!(turn.raw > num("0.05").raw);
    let wanted = lem.calc_dynamics(num("200"), turn).unwrap();
    assert_eq!(
        next_move(&lem, num("200"), num("0.002")),
        Some(Move::Advance { burn_time: turn, next: wanted, corrected: true })
    );
    assert_eq!(next_move(&lem, num("200"), num("0.002")), Some(Move::Advance { burn_time: raw(50_000_100_917_432), next: Kinematics { velocity: raw(-495_537_207_114), altitude: raw(120_000_012_387_741_264), elapsed_time: raw(0) }, corrected: true }));
    let before = lem;
    let left = lem.update_status(num("200"), turn, &wanted, num("0.002")).unwrap();
    assert_eq!(left, num("0.002").minus(turn).unwrap());
    assert!(left.raw < 0);
    assert_eq!(lem.phys().velocity, wanted.velocity);
    assert_eq!(lem.phys().altitude, wanted.altitude);
    assert_eq!(lem.phys().elapsed_time, before.phys().elapsed_time.plus(turn).unwrap());
    assert_eq!(lem.fuel(), before.fuel().minus(num("200").times(turn).unwrap()).unwrap());
    assert_eq!(next_move(&lem, num("200"), left), Some(Move::EndPeriod));
}

#[test]
fn corrected_steps_are_the_correction() {
    for velocity in ["0.000000001", "0.001", "0.05", "0.1", "0.11"] {
        for left in ["0.002", "0.04", "0.06", "1", "10"] {
            let lem = session("16500", "16500", velocity, "120", "1.8");
            let turn = lem.calc_upward_burn_time(num("200")).unwrap();
            match next_move(&lem, num("200"), num(left)) {
                Some(Move::Advance { burn_time, next, corrected }) => {
                    if corrected {
                        assert_eq!(burn_time, turn);
                        assert_eq!(Some(next), lem.calc_dynamics(num("200"), turn));
                    } else {
                        assert!(burn_time.raw <= num(left).raw);
                    }
                }
                other => panic!("unexpected step {:?}", other),
            }
        }
    }
}

#[test]
fn burn_time_is_not_corrected_at_a_velocity_that_is_not_positive() {
    for velocity in ["0", "-0.000000000000001", "-0.5", "-3"] {
        let lem = session("16500", "16500", velocity, "120", "1.8");
        for rate in ["0", "1", "50", "200"] {
            match next_move(&lem, num(rate), raw(PERIOD)) {
                Some(Move::Advance { burn_time, corrected, .. }) => {
                    assert!(!corrected);
                    assert_eq!(burn_time, raw(PERIOD));
                }
                other => panic!("unexpected step {:?}", other),
            }
        }
    }
}

#[test]
fn burn_time_is_not_corrected_where_the_velocity_stays_positive() {
    let mut lem = standard();
    for _ in 0..14 {
        let lasting = lem.calc_dynamics(num("200"), raw(PERIOD)).unwrap();
        match next_move(&lem, num("200"), raw(PERIOD)) {
            Some(Move::Advance { corrected, .. }) | Some(Move::Touchdown { corrected, .. }) => {
                assert_eq!(corrected, lasting.altitude.raw > 0 && lasting.velocity.raw < 0)
            }
            other => panic!("unexpected step {:?}", other),
        }
        if run_period(&mut lem, num("150")) != Ok(PeriodOutcome::Continuing) {
            break;
        }
    }
}

#[test]
fn corrected_burn_before_a_landing() {
    let mut lem = session("16500", "2721.7", "0.1671587", "0.761070492", "1.8");
    assert_eq!(next_move(&lem, num("200"), raw(PERIOD)), Some(Move::Advance { burn_time: raw(8_663_187_042_188_782), next: Kinematics { velocity: raw(5_786_576_359_358), altitude: raw(348_256_693_477), elapsed_time: raw(0) }, corrected: true }));
    assert_eq!(run_period(&mut lem, num("200")), Ok(PeriodOutcome::Landed { impact_speed: raw(16_034_517_501_958_800), elapsed_time: raw(8_731_200_676_337_908) }));
    assert_eq!(state(&lem), (8_731_200_676_337_908, 4_454_032_639_433, 1, 975_459_864_732_418_400));
}

#[test]
fn next_move_fails_beyond_the_range() {
    assert_eq!(next_move(&standard(), raw(i128::MAX), raw(PERIOD)), None);
    assert_eq!(next_move(&standard(), num("200"), raw(i128::MAX)), None);
}

#[test]
fn period_of_free_fall() {
    let mut lem = standard();
    assert_eq!(run_period(&mut lem, num("0")), Ok(PeriodOutcome::Continuing));
    assert_eq!(state(&lem), (10_000_000_000_000_000, 1_010_000_000_000_000, 109_950_000_000_000_000, 16_500_000_000_000_000_000));
    assert_eq!(lem.phys().velocity, num("1.01"));
    assert_eq!(lem.phys().altitude, num("109.95"));
    assert_eq!(lem.total_mass(), num("33000"));
}

#[test]
fn period_with_a_corrected_step() {
    let mut lem = session("16500", "16500", "0.001", "120", "1.8");
    assert_eq!(run_period(&mut lem, num("200")), Ok(PeriodOutcome::Continuing));
    assert_eq!(state(&lem), (10_000_000_000_000_000, -101_536_628_183_369, 120_496_820_382_105_722, 14_500_000_000_000_000_000));
    assert_eq!(lem.phys().elapsed_time, num("10"));
    assert_eq!(lem.total_mass(), num("31000"));
}

#[test]
fn out_of_fuel_at_the_start_of_a_period() {
    let mut lem = session("16500", "0.0005", "1", "120", "1.8");
    assert_eq!(run_period(&mut lem, num("50")), Ok(PeriodOutcome::OutOfFuel { fuel_out_at: raw(0), impact_speed: raw(4_008_790_341_237_614_400), elapsed_time: raw(113_552_872_566_004_000) }));
    // no burn step was taken: the fuel and the altitude are what they were
    assert_eq!(lem.fuel(), num("0.0005"));
    assert_eq!(lem.total_mass(), num("16500.0005"));
    assert_eq!(lem.phys().altitude, num("120"));
    assert_eq!(state(&lem), (113_552_872_566_004_000, 1_113_552_872_566_004, 120_000_000_000_000_000, 500_000_000_000));
}

#[test]
fn out_of_fuel_on_the_surface_keeps_clock_and_velocity() {
    let mut lem = session("16500", "0", "1.113552872", "0", "1.8");
    assert_eq!(run_period(&mut lem, num("0")), Ok(PeriodOutcome::OutOfFuel { fuel_out_at: raw(0), impact_speed: raw(4_008_790_339_200_000_000), elapsed_time: raw(0) }));
    assert_eq!(lem.phys().elapsed_time, raw(0));
    assert_eq!(lem.phys().velocity, num("1.113552872"));
}

#[test]
fn out_of_fuel_does_not_depend_on_the_command() {
    let mut first = session("16500", "0.0005", "1", "120", "1.8");
    let mut second = first;
    let mut third = first;
    let ended = run_period(&mut first, num("0"));
    assert_eq!(run_period(&mut second, num("200")), ended);
    assert_eq!(out_of_fuel(&mut third), ended);
    assert_eq!(first, second);
    assert_eq!(first, third);
}

#[test]
fn out_of_fuel_inside_a_period() {
    let mut lem = session("16500", "500", "1", "120", "1.8");
    assert_eq!(run_period(&mut lem, num("200")), Ok(PeriodOutcome::OutOfFuel { fuel_out_at: raw(2_500_000_000_000_000), impact_speed: raw(3_835_785_745_932_836_400), elapsed_time: raw(119_231_374_007_096_000) }));
    assert_eq!(state(&lem), (119_231_374_007_096_000, 1_065_496_040_536_899, 117_563_709_972_201_411, 0));
    assert_eq!(lem.total_mass(), num("16500"));
}

#[test]
fn descent_at_full_thrust_from_seventy_seconds() {
    let mut lem = standard();
    let flight: [(&str, (i128, i128, i128, i128)); 14] = [
        ("0", (10_000_000_000_000_000, 1_010_000_000_000_000, 109_950_000_000_000_000, 16_500_000_000_000_000_000)),
        ("0", (20_000_000_000_000_000, 1_020_000_000_000_000, 99_800_000_000_000_000, 16_500_000_000_000_000_000)),
        ("0", (30_000_000_000_000_000, 1_030_000_000_000_000, 89_550_000_000_000_000, 16_500_000_000_000_000_000)),
        ("0", (40_000_000_000_000_000, 1_040_000_000_000_000, 79_200_000_000_000_000, 16_500_000_000_000_000_000)),
        ("0", (50_000_000_000_000_000, 1_050_000_000_000_000, 68_750_000_000_000_000, 16_500_000_000_000_000_000)),
        ("0", (60_000_000_000_000_000, 1_060_000_000_000_000, 58_200_000_000_000_000, 16_500_000_000_000_000_000)),
        ("0", (70_000_000_000_000_000, 1_070_000_000_000_000, 47_550_000_000_000_000, 16_500_000_000_000_000_000)),
        ("170", (80_000_000_000_000_000, 984_798_970_809_620, 37_271_809_419_468_722, 14_800_000_000_000_000_000)),
        ("200", (90_000_000_000_000_000, 875_943_945_671_740, 27_961_555_333_093_540, 12_800_000_000_000_000_000)),
        ("200", (100_000_000_000_000_000, 758_682_513_007_893, 19_780_925_872_132_480, 10_800_000_000_000_000_000)),
        ("200", (110_000_000_000_000_000, 631_734_410_876_001, 12_820_159_491_577_370, 8_800_000_000_000_000_000)),
        ("200", (120_000_000_000_000_000, 493_502_626_125_790, 7_183_803_198_188_292, 6_800_000_000_000_000_000)),
        ("200", (130_000_000_000_000_000, 341_959_437_526_754, 2_994_413_371_632_948, 4_800_000_000_000_000_000)),
        ("200", (140_000_000_000_000_000, 174_476_102_909_601, 397_655_309_384_582, 2_800_000_000_000_000_000)),
    ];
    for (rate, after) in flight {
        assert_eq!(run_period(&mut lem, num(rate)), Ok(PeriodOutcome::Continuing));
        assert_eq!(state(&lem), after);
    }
    assert_eq!(run_period(&mut lem, num("200")), Ok(PeriodOutcome::Landed { impact_speed: raw(458_305_208_028_219_600), elapsed_time: raw(142_633_367_621_466_034) }));
    assert_eq!(state(&lem), (142_633_367_621_466_034, 127_307_002_230_061, 3_442, 2_273_326_475_706_793_200));
    assert_eq!(impact_speed(&lem), Some(raw(458_305_208_028_219_600)));
}

#[test]
fn landing_refines_the_impact() {
    let mut lem = session("16500", "16500", "1", "5", "1.8");
    let mut same = lem;
    assert_eq!(landing(&mut lem, num("200"), raw(PERIOD)), Ok(PeriodOutcome::Landed { impact_speed: raw(3_413_726_530_537_456_800), elapsed_time: raw(5_132_003_137_158_880) }));
    assert_eq!(state(&lem), (5_132_003_137_158_880, 948_257_369_593_738, 49, 15_473_599_372_568_224_000));
    assert_eq!(run_period(&mut same, num("200")), Ok(PeriodOutcome::Landed { impact_speed: raw(3_413_726_530_537_456_800), elapsed_time: raw(5_132_003_137_158_880) }));
    assert_eq!(same, lem);
}

#[test]
fn soft_landings() {
    let mut lem = session("16500", "1000", "0.0002", "0.00001", "1.8");
    assert_eq!(run_period(&mut lem, num("0")), Ok(PeriodOutcome::Landed { impact_speed: raw(881_816_307_415_200), elapsed_time: raw(44_948_974_282_430) }));
    let mut lem = session("16500", "1000", "0.001", "0.001", "1.8");
    assert_eq!(run_period(&mut lem, num("0")), Ok(PeriodOutcome::Landed { impact_speed: raw(6_235_382_907_248_400), elapsed_time: raw(732_050_807_569_112) }));
}

#[test]
fn every_period_in_flight_lasts_ten_seconds() {
    let mut lem = standard();
    let mut last = 0;
    for rate in ["0", "40", "0", "200", "13.7", "90", "0", "200", "200", "200"] {
        assert_eq!(run_period(&mut lem, num(rate)), Ok(PeriodOutcome::Continuing));
        let now = lem.phys().elapsed_time.raw;
        assert!(now >= last + PERIOD - 1_000_000_000_000 && now <= last + PERIOD);
        assert!(lem.fuel().raw >= 0);
        assert_eq!(lem.total_mass().raw, lem.capsule_mass().raw + lem.fuel().raw);
        last = now;
    }
}

#[test]
fn no_period_moves_the_clock_back() {
    for (fuel, velocity, altitude) in [("16500", "1", "120"), ("500", "1", "120"), ("0", "1.113552872", "0"), ("16500", "1", "5"), ("1000", "0.0002", "0.00001"), ("2721.7", "0.1671587", "0.761070492")] {
        for rate in ["0", "10", "200"] {
            let mut lem = session("16500", fuel, velocity, altitude, "1.8");
            let before = lem.phys().elapsed_time.raw;
            if run_period(&mut lem, num(rate)).is_ok() {
                assert!(lem.phys().elapsed_time.raw >= before);
            }
        }
    }
}

#[test]
fn a_period_beyond_the_range_fails() {
    let mut lem = standard();
    let before = lem;
    assert_eq!(run_period(&mut lem, num("5000000000")), Err(Fault::Unrepresentable));
    assert_eq!(lem, before);
    let mut lem = session("16500", "16500", "9000000000", "120", "1.8");
    let before = lem;
    assert_eq!(run_period(&mut lem, num("0")), Err(Fault::Unrepresentable));
    assert_eq!(lem, before);
}

#[test]
fn a_failure_late_in_a_period_undoes_its_steps() {
    // the fuel lasts for a first step; the fall from five billion miles cannot be represented
    let mut lem = session("16500", "500", "1", "5000000000", "1.8");
    let before = lem;
    assert_eq!(next_move(&lem, num("200"), raw(PERIOD)), Some(Move::Advance { burn_time: raw(2_500_000_000_000_000), next: Kinematics { velocity: raw(948_764_666_529_803), altitude: raw(4_999_999_997_563_709_972_201_411), elapsed_time: raw(0) }, corrected: false }));
    assert_eq!(run_period(&mut lem, num("200")), Err(Fault::Unrepresentable));
    assert_eq!(lem, before);
}

#[test]
fn a_failed_landing_changes_nothing() {
    let mut lem = session("16500", "16500", "0.001", "120", "1.8");
    let before = lem;
    assert_eq!(landing(&mut lem, num("200"), raw(PERIOD)), Err(Fault::Unrepresentable));
    assert_eq!(lem, before);
    let mut lem = session("16500", "0", "1", "-600", "1.8");
    let before = lem;
    assert_eq!(out_of_fuel(&mut lem), Err(Fault::Unrepresentable));
    assert_eq!(lem, before);
}

#[test]
fn impact_speed_is_velocity_times_thirty_six_hundred() {
    assert_eq!(impact_speed(&standard()), Some(num("3600")));
    assert_eq!(impact_speed(&session("1", "1", "-0.25", "0", "1.8")), Some(num("-900")));
    assert_eq!(impact_speed(&session("1", "1", "90000000000000000000", "0", "1.8")), None);
}
