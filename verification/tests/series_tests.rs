use lunar_lander::fixed::Fixed;
use lunar_lander::series::{altitude_mass_factor, velocity_mass_factor};

fn raw(x: i128) -> Fixed {
    Fixed::from_raw(x)
}

/// The number that a decimal numeral with at most fifteen fractional digits denotes.
fn num(text: &str) -> Fixed {
    let (sign, digits) = match text.strip_prefix('-') {
        Some(rest) => (-1, rest),
        None => (1, text),
    };
    let (whole, fraction) = match digits.split_once('.') {
        Some((whole, fraction)) => (whole, fraction),
        None => (digits, ""),
    };
    let mut value: i128 = whole.parse().unwrap();
    let mut places = 0;
    for digit in fraction.chars() {
        value = value * 10 + digit.to_digit(10).unwrap() as i128;
        places += 1;
    }
    while places < 15 {
        value *= 10;
        places += 1;
    }
    Fixed::from_raw(sign * value)
}

#[test]
fn series_vanish_without_burn() {
    assert_eq!(velocity_mass_factor(raw(0)), Some(raw(0)));
    assert_eq!(altitude_mass_factor(raw(0)), Some(raw(0)));
}

#[test]
fn velocity_series_at_one_tenth() {
    // 0.1 + 0.01/2 + 0.001/3 + 0.0001/4 + 0.00001/5, the third rounded down
    assert_eq!(velocity_mass_factor(num("0.1")), Some(raw(-105_360_333_333_333)));
    assert_eq!(velocity_mass_factor(num("0.1")), Some(num("-0.105360333333333")));
}

#[test]
fn altitude_series_at_one_tenth() {
    // 0.1/2 + 0.01/6 + 0.001/12 + 0.0001/20 + 0.00001/30, each rounded down
    assert_eq!(altitude_mass_factor(num("0.1")), Some(raw(51_755_333_333_332)));
}

#[test]
fn series_at_one() {
    // 137/60 and 5/6 to within a millionth of a millionth
    let velocity = velocity_mass_factor(num("1")).unwrap();
    let altitude = altitude_mass_factor(num("1")).unwrap();
    assert_eq!(velocity, raw(-2_283_333_333_333_333));
    assert_eq!(altitude, raw(833_333_333_333_332));
    assert!((60 * velocity.raw + 137 * 1_000_000_000_000_000).abs() < 60 * 1_000);
    assert!((6 * altitude.raw - 5 * 1_000_000_000_000_000).abs() < 6 * 1_000);
}

#[test]
fn series_of_a_negative_fraction() {
    assert_eq!(velocity_mass_factor(num("-0.5")), Some(raw(407_291_666_666_667)));
    assert_eq!(altitude_mass_factor(num("-0.5")), Some(raw(-216_666_666_666_668)));
}

#[test]
fn series_fail_beyond_the_range() {
    assert_eq!(velocity_mass_factor(num("100000")), None);
    assert_eq!(altitude_mass_factor(num("100000")), None);
    assert_eq!(velocity_mass_factor(num("1000")), None);
}

#[test]
fn series_follow_the_exact_polynomials() {
    let mut q: i128 = 0;
    while q <= 1_000_000_000_000_000 {
        let x = q as f64 / 1e15;
        let velocity = -(x + x.powi(2) / 2.0 + x.powi(3) / 3.0 + x.powi(4) / 4.0 + x.powi(5) / 5.0);
        let altitude =
            x / 2.0 + x.powi(2) / 6.0 + x.powi(3) / 12.0 + x.powi(4) / 20.0 + x.powi(5) / 30.0;
        let v = velocity_mass_factor(raw(q)).unwrap().raw as f64 / 1e15;
        let a = altitude_mass_factor(raw(q)).unwrap().raw as f64 / 1e15;
        assert!((v - velocity).abs() < 1e-14);
        assert!((a - altitude).abs() < 1e-14);
        q += 7_812_500_000_000;
    }
}
