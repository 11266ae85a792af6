use lunar_lander::fixed::Fixed;
use lunar_lander::lander::{Fault, Lander};
use lunar_lander::stepper::{run_period, PeriodOutcome};

const UNIT: i128 = 1_000_000_000_000_000;
const GRAVITY: i128 = 1_000_000_000_000;

fn craft(velocity: i128, altitude: i128) -> Lander {
    Lander::new_session(
        Fixed::from_raw(16500 * UNIT),
        Fixed::from_raw(16500 * UNIT),
        Fixed::from_raw(velocity),
        Fixed::from_raw(altitude),
        Fixed::from_raw(1_800_000_000_000_000),
    )
    .unwrap()
}

/// The largest integer whose square is at most `n`.
fn integer_root(n: i128) -> i128 {
    let mut low: i128 = 0;
    let mut high: i128 = 1 << 62;
    while low < high {
        let middle = (low + high + 1) / 2;
        if middle * middle <= n {
            low = middle;
        } else {
            high = middle - 1;
        }
    }
    low
}

/// The root under the first estimate: each product rounded down, then the root.
fn impact_root(velocity: i128, altitude: i128) -> i128 {
    let square = velocity * velocity / UNIT;
    let span = 2 * altitude * GRAVITY / UNIT;
    integer_root((square + span) * UNIT)
}

/// Refines the impact of a craft in free fall and holds the result against
/// the bounds that the library states for it.
fn lands(velocity: i128, altitude: i128) -> Lander {
    let mut lem = craft(velocity, altitude);
    assert_eq!(lem.calc_impact(Fixed::from_raw(0), Fixed::from_raw(10 * UNIT)), Ok(()));
    let root = impact_root(velocity, altitude);
    let phys = lem.phys();
    assert!(-2007 <= phys.altitude.raw && phys.altitude.raw <= 2103);
    assert!(root - 1_002_000 <= phys.velocity.raw && phys.velocity.raw <= root + 3_100_000);
    if root >= 1_000_000_000_000 {
        assert!(root - 2004 <= phys.velocity.raw && phys.velocity.raw <= root + 6107);
    }
    assert!(phys.elapsed_time.raw >= 0);
    assert_eq!(lem.fuel(), Fixed::from_raw(16500 * UNIT));
    assert_eq!(lem.total_mass(), Fixed::from_raw(33000 * UNIT));
    assert_eq!(lem.capsule_mass(), Fixed::from_raw(16500 * UNIT));
    lem
}

#[test]
fn integer_root_rounds_down() {
    assert_eq!(integer_root(0), 0);
    assert_eq!(integer_root(15), 3);
    assert_eq!(integer_root(16), 4);
    assert_eq!(integer_root(1_000_000_000_000_000_000_000_000_000_000), 1_000_000_000_000_000);
}

#[test]
fn free_fall_from_the_least_energy() {
    // two units of the ninth decimal place above the surface, at rest:
    // v^2 + 2 g h is the square of two millionths
    let soft = lands(0, 2_000_000);
    assert_eq!(impact_root(0, 2_000_000), 2_000_000_000);
    assert_eq!(soft.phys().velocity.raw, 2_000_000_000);
    assert_eq!(soft.phys().altitude.raw, 0);
    assert_eq!(soft.phys().elapsed_time.raw, 2_000_000_000_000);
    lands(2_000_000_000, 0);
    lands(1_000_000_000, 1_500_000);
}

#[test]
fn free_fall_from_two_thousandths() {
    // 0.002 above the surface, at rest: v^2 + 2 g h is four millionths
    let lem = lands(0, 2_000_000_000_000);
    assert_eq!(impact_root(0, 2_000_000_000_000), 2_000_000_000_000);
    // two seconds of fall
    let clock = lem.phys().elapsed_time.raw;
    assert!(1_999_999_999_000_000 <= clock && clock <= 2_000_000_000_010_000);
}

#[test]
fn free_fall_from_the_greatest_altitude() {
    let lem = lands(0, 400 * UNIT);
    // sqrt(2 * 0.001 * 400) = 0.894427190999915...
    assert_eq!(impact_root(0, 400 * UNIT), 894_427_190_999_915);
    let velocity = lem.phys().velocity.raw;
    assert!(894_427_190_998_912 <= velocity && velocity <= 894_427_191_006_024);
}

#[test]
fn free_fall_at_the_greatest_velocity() {
    lands(999 * UNIT, 400 * UNIT);
    lands(999 * UNIT, 0);
    lands(999 * UNIT, 1);
}

#[test]
fn free_fall_from_the_opening_position() {
    let lem = lands(UNIT, 120 * UNIT);
    // sqrt(1 + 0.24) = 1.113552872566004...
    assert_eq!(impact_root(UNIT, 120 * UNIT), 1_113_552_872_566_004);
    // (1.113552872566004 - 1) / 0.001 seconds of fall
    let clock = lem.phys().elapsed_time.raw;
    assert!(113_552_872_566_000_000 <= clock && clock <= 113_552_872_567_000_000);
}

#[test]
fn free_fall_from_the_surface() {
    let lem = lands(2_000_000_000_000, 0);
    assert_eq!(lem.phys().altitude.raw, 0);
    assert_eq!(lem.phys().velocity.raw, 2_000_000_000_000);
    assert_eq!(lem.phys().elapsed_time.raw, 0);
}

#[test]
fn free_fall_over_a_grid() {
    let velocities: [i128; 8] = [
        0,
        1,
        2_000_000_000,
        333_333_333_333,
        2_000_000_000_000,
        123_456_789_012_345,
        77 * UNIT + 1,
        998 * UNIT + 999_999_999_999_999,
    ];
    let altitudes: [i128; 10] = [
        2_000_000,
        2_000_001,
        31_415_926_535,
        2_000_000_000_000,
        2_000_000_000_001,
        999_999_999_999_999,
        UNIT,
        3 * UNIT + 141_592_653_589_793,
        399 * UNIT + 1,
        400 * UNIT,
    ];
    for velocity in velocities {
        for altitude in altitudes {
            lands(velocity, altitude);
        }
    }
}

#[test]
fn a_small_estimate_leaves_the_craft_alone() {
    let mut lem = craft(UNIT, 120 * UNIT);
    let before = lem;
    assert_eq!(lem.calc_impact(Fixed::from_raw(0), Fixed::from_raw(4_999_999_999_999)), Ok(()));
    assert_eq!(lem, before);
}

#[test]
fn free_fall_without_energy_is_not_refined() {
    // at rest so near the surface that the root under the estimate is zero
    let mut lem = craft(0, 400);
    let before = lem;
    assert_eq!(
        lem.calc_impact(Fixed::from_raw(0), Fixed::from_raw(10 * UNIT)),
        Err(Fault::Unrepresentable)
    );
    assert_eq!(lem, before);
}

#[test]
fn free_fall_from_too_high_is_not_refined() {
    // a fall of 44 721 seconds, whose square is beyond the range
    let mut lem = craft(0, 1_000_000 * UNIT);
    let before = lem;
    assert_eq!(
        lem.calc_impact(Fixed::from_raw(0), Fixed::from_raw(10 * UNIT)),
        Err(Fault::Unrepresentable)
    );
    assert_eq!(lem, before);
}

#[test]
fn a_period_without_thrust_continues_above_the_surface() {
    let mut lem = craft(UNIT, 120 * UNIT);
    assert_eq!(run_period(&mut lem, Fixed::from_raw(0)), Ok(PeriodOutcome::Continuing));
    let phys = lem.phys();
    // v + g t and h - g t^2 / 2 - v t after ten seconds
    assert_eq!(phys.velocity.raw, 1_010_000_000_000_000);
    assert_eq!(phys.altitude.raw, 109_950_000_000_000_000);
    assert_eq!(phys.elapsed_time.raw, 10 * UNIT);
    assert_eq!(lem.fuel().raw, 16500 * UNIT);
}

#[test]
fn a_period_without_thrust_lands_by_refinement() {
    // 0.05 above the surface at 0.01: on the surface at sqrt(0.0002) after 4.14 seconds
    let mut lem = craft(10_000_000_000_000, 50_000_000_000_000);
    assert_eq!(
        run_period(&mut lem, Fixed::from_raw(0)),
        Ok(PeriodOutcome::Landed {
            impact_speed: Fixed::from_raw(50_911_688_245_431_600),
            elapsed_time: Fixed::from_raw(4_142_135_623_731_112),
        })
    );
    let phys = lem.phys();
    assert_eq!(impact_root(10_000_000_000_000, 50_000_000_000_000), 14_142_135_623_730);
    assert_eq!(phys.velocity.raw, 14_142_135_623_731);
    assert_eq!(phys.altitude.raw, -2);
    assert_eq!(lem.fuel().raw, 16500 * UNIT);
}

#[test]
fn a_period_without_fuel_ends_in_free_fall() {
    let mut lem = Lander::new_session(
        Fixed::from_raw(16500 * UNIT),
        Fixed::from_raw(0),
        Fixed::from_raw(UNIT),
        Fixed::from_raw(120 * UNIT),
        Fixed::from_raw(1_800_000_000_000_000),
    )
    .unwrap();
    assert_eq!(
        run_period(&mut lem, Fixed::from_raw(0)),
        Ok(PeriodOutcome::OutOfFuel {
            fuel_out_at: Fixed::from_raw(0),
            impact_speed: Fixed::from_raw(4_008_790_341_237_614_400),
            elapsed_time: Fixed::from_raw(113_552_872_566_004_000),
        })
    );
}

#[test]
fn a_period_under_thrust_that_empties_the_tanks_ends_in_free_fall() {
    // a thousand of fuel at a rate of two hundred lasts five seconds
    let mut lem = Lander::new_session(
        Fixed::from_raw(16500 * UNIT),
        Fixed::from_raw(1000 * UNIT),
        Fixed::from_raw(UNIT),
        Fixed::from_raw(120 * UNIT),
        Fixed::from_raw(1_800_000_000_000_000),
    )
    .unwrap();
    assert_eq!(
        run_period(&mut lem, Fixed::from_raw(200 * UNIT)),
        Ok(PeriodOutcome::OutOfFuel {
            fuel_out_at: Fixed::from_raw(5 * UNIT),
            impact_speed: Fixed::from_raw(3_669_276_056_503_600_800),
            elapsed_time: Fixed::from_raw(125_156_238_086_906_000),
        })
    );
    assert_eq!(lem.fuel().raw, 0);
    assert_eq!(lem.phys().velocity.raw, 1_019_243_349_028_778);
}

#[test]
fn an_estimate_under_thrust_needs_energy() {
    let lem = craft(UNIT, 120 * UNIT);
    // 1 + 240 (0.001 - 1.8 * 10 / 33000) is positive
    assert_eq!(
        lem.time_to_impact(Fixed::from_raw(10 * UNIT)),
        Some(Fixed::from_raw(116_894_473_211_929_384))
    );
    // 1 + 240 (0.001 - 1.8 * 100 / 33000) is negative
    assert_eq!(lem.time_to_impact(Fixed::from_raw(100 * UNIT)), None);
    assert_eq!(lem.time_to_impact(Fixed::from_raw(200 * UNIT)), None);
}
