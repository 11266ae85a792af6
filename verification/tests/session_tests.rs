use lunar_lander::fixed::Fixed;
use lunar_lander::lander::{Fault, Lander};
use lunar_lander::outcome::{classify, OutcomeCategory};
use lunar_lander::session::{Refusal, Session};
use lunar_lander::stepper::{run_period, PeriodOutcome};

fn raw(x: i128) -> Fixed {
    Fixed::from_raw(x)
}

/// The number that a decimal numeral with at most fifteen fractional digits denotes.
fn num(text: &str) -> Fixed {
    let (sign, digits) = match text.strip_prefix('-') {
        Some(rest) => (-1, rest),
        None => (1, text),
    };
    let (whole, fraction) = match digits.split_once('.') {
        Some((whole, fraction)) => (whole, fraction),
        None => (digits, ""),
    };
    let mut value: i128 = whole.parse().unwrap();
    let mut places = 0;
    for digit in fraction.chars() {
        value = value * 10 + digit.to_digit(10).unwrap() as i128;
        places += 1;
    }
    while places < 15 {
        value *= 10;
        places += 1;
    }
    Fixed::from_raw(sign * value)
}

fn craft(fuel: &str, velocity: &str, altitude: &str) -> Lander {
    Lander::new_session(num("16500"), num(fuel), num(velocity), num(altitude), num("1.8")).unwrap()
}

#[test]
fn a_session_begins_in_flight() {
    let lem = craft("16500", "1", "120");
    let session = Session::begin(lem);
    assert!(!session.is_over());
    assert_eq!(session.verdict(), None);
    assert_eq!(session.lander(), lem);
}

#[test]
fn a_session_follows_the_periods() {
    let mut lem = craft("16500", "1", "120");
    let mut session = Session::begin(lem);
    for rate in ["0", "0", "200", "35.5"] {
        assert_eq!(session.run_period(num(rate)), Ok(PeriodOutcome::Continuing));
        assert_eq!(run_period(&mut lem, num(rate)), Ok(PeriodOutcome::Continuing));
        assert_eq!(session.lander(), lem);
        assert!(!session.is_over());
        assert_eq!(session.verdict(), None);
    }
}

#[test]
fn a_landing_ends_the_session() {
    let mut session = Session::begin(craft("1000", "0.0002", "0.00001"));
    let ended = session.run_period(num("0"));
    assert_eq!(ended, Ok(PeriodOutcome::Landed { impact_speed: raw(881_816_307_415_200), elapsed_time: raw(44_948_974_282_430) }));
    assert!(session.is_over());
    assert_eq!(session.verdict(), Some(OutcomeCategory::Perfect));
    let down = session;
    for rate in ["0", "50", "200"] {
        assert_eq!(session.run_period(num(rate)), Err(Refusal::Over));
        assert_eq!(session, down);
    }
}

#[test]
fn running_out_of_fuel_ends_the_session() {
    let mut session = Session::begin(craft("0.0005", "1", "120"));
    let ended = session.run_period(num("50"));
    assert_eq!(ended, Ok(PeriodOutcome::OutOfFuel { fuel_out_at: raw(0), impact_speed: raw(4_008_790_341_237_614_400), elapsed_time: raw(113_552_872_566_004_000) }));
    assert!(session.is_over());
    assert_eq!(session.verdict(), Some(classify(raw(4_008_790_341_237_614_400))));
    assert_eq!(session.verdict(), Some(OutcomeCategory::Crater { depth: raw(909_995_407_460_938_468) }));
    assert_eq!(session.run_period(num("50")), Err(Refusal::Over));
}

#[test]
fn verdicts_by_impact_speed() {
    for (velocity, altitude, wanted) in [
        ("0.001", "0.001", OutcomeCategory::Good),
        ("0.005", "0.01", OutcomeCategory::Stranded),
        ("0.02", "0.01", OutcomeCategory::Crater { depth: raw(16_747_616_331_884_206) }),
    ] {
        let mut session = Session::begin(craft("1000", velocity, altitude));
        assert!(session.run_period(num("0")).is_ok());
        assert_eq!(session.verdict(), Some(wanted));
    }
}

#[test]
fn a_failed_period_leaves_the_session_in_flight() {
    let mut session = Session::begin(craft("16500", "1", "120"));
    let before = session;
    assert_eq!(session.run_period(num("5000000000")), Err(Refusal::Failed(Fault::Unrepresentable)));
    assert_eq!(session, before);
    assert!(!session.is_over());
    assert_eq!(session.run_period(num("0")), Ok(PeriodOutcome::Continuing));
}
