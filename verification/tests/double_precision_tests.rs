// The descent once more in double precision, to hold the fixed-point results against.

use lunar_lander::fixed::Fixed;
use lunar_lander::lander::Lander;
use lunar_lander::stepper::{run_period, PeriodOutcome};

const GRAVITY: f64 = 0.001;

#[derive(Debug, PartialEq)]
enum End {
    Continuing,
    Landed,
    OutOfFuel,
}

struct Model {
    dry: f64,
    fuel: f64,
    total: f64,
    exhaust: f64,
    velocity: f64,
    altitude: f64,
    clock: f64,
}

impl Model {
    fn new(dry: f64, fuel: f64, velocity: f64, altitude: f64, exhaust: f64) -> Model {
        Model { dry, fuel, total: dry + fuel, exhaust, velocity, altitude, clock: 0.0 }
    }

    fn dynamics(&self, rate: f64, time: f64) -> (f64, f64) {
        let q = rate * time / self.total;
        let braking = -(q + q.powi(2) / 2.0 + q.powi(3) / 3.0 + q.powi(4) / 4.0 + q.powi(5) / 5.0);
        let lifting =
            q / 2.0 + q.powi(2) / 6.0 + q.powi(3) / 12.0 + q.powi(4) / 20.0 + q.powi(5) / 30.0;
        (
            self.velocity + GRAVITY * time + self.exhaust * braking,
            self.altitude - GRAVITY * (time * time / 2.0) - self.velocity * time
                + self.exhaust * time * lifting,
        )
    }

    fn advance(&mut self, rate: f64, time: f64, next: (f64, f64)) {
        self.velocity = next.0;
        self.altitude = next.1;
        self.clock += time;
        self.fuel = (self.fuel - rate * time).max(0.0);
        self.total = self.dry + self.fuel;
    }

    fn refine(&mut self, rate: f64, mut estimate: f64) {
        while estimate >= 0.005 {
            let speed = self.velocity
                + (self.velocity.powi(2)
                    + 2.0 * self.altitude * (GRAVITY - self.exhaust * (rate / self.total)))
                .sqrt();
            estimate = 2.0 * (self.altitude / speed);
            if estimate < 0.0 {
                return;
            }
            let next = self.dynamics(rate, estimate);
            self.advance(rate, estimate, next);
        }
    }

    fn run_period(&mut self, rate: f64) -> End {
        let mut left = 10.0;
        loop {
            if self.fuel < 0.001 {
                let fall = (-self.velocity
                    + (self.velocity.powi(2) + 2.0 * self.altitude * GRAVITY).sqrt())
                    / GRAVITY;
                let fall = fall.max(0.0);
                self.velocity += GRAVITY * fall;
                self.clock += fall;
                return End::OutOfFuel;
            }
            if left <= 0.001 {
                return End::Continuing;
            }
            let mut time = if self.fuel < rate * left { self.fuel / rate } else { left };
            let mut next = self.dynamics(rate, time);
            if next.1 <= 0.0 {
                self.refine(rate, time);
                return End::Landed;
            }
            if self.velocity > 0.0 && next.0 < 0.0 {
                let factor = (1.0 - self.total * GRAVITY / (self.exhaust * rate)) / 2.0;
                time = self.total * self.velocity
                    / (self.exhaust
                        * rate
                        * (factor + (factor * factor + self.velocity / self.exhaust).sqrt()))
                    + 0.05;
                next = self.dynamics(rate, time);
                if next.1 <= 0.0 {
                    self.refine(rate, time);
                    return End::Landed;
                }
            }
            self.advance(rate, time, next);
            left -= time;
        }
    }
}

struct Dice(u64);

impl Dice {
    fn roll(&mut self) -> u64 {
        self.0 = self.0.wrapping_mul(6364136223846793005).wrapping_add(1442695040888963407);
        self.0 >> 33
    }

    /// A burn rate in thousandths: nothing, everything, or anything between.
    fn rate(&mut self) -> i128 {
        match self.roll() % 4 {
            0 => 0,
            1 => 200_000,
            _ => (self.roll() % 200_001) as i128,
        }
    }
}

fn close(found: Fixed, wanted: f64, tolerance: f64) -> bool {
    (found.raw as f64 / 1e15 - wanted).abs() <= tolerance
}

#[test]
fn descents_follow_double_precision() {
    let mut landed = 0;
    let mut fallen = 0;
    for seed in 1..=300u64 {
        let mut dice = Dice(seed);
        let whole = |x: i128| Fixed::from_raw(x * 1_000_000_000_000_000);
        let mut lem = Lander::new_session(
            whole(16500),
            whole(16500),
            whole(1),
            whole(120),
            Fixed::from_raw(1_800_000_000_000_000),
        )
        .unwrap();
        let mut model = Model::new(16500.0, 16500.0, 1.0, 120.0, 1.8);
        for _ in 0..40 {
            let rate = dice.rate();
            let wanted = model.run_period(rate as f64 / 1000.0);
            let found = run_period(&mut lem, Fixed::from_raw(rate * 1_000_000_000_000)).unwrap();
            match found {
                PeriodOutcome::Continuing => {
                    assert_eq!(wanted, End::Continuing);
                    assert!(close(lem.phys().velocity, model.velocity, 1e-9));
                    assert!(close(lem.phys().altitude, model.altitude, 1e-8));
                    assert!(close(lem.phys().elapsed_time, model.clock, 1e-8));
                    assert!(close(lem.fuel(), model.fuel, 1e-6));
                }
                PeriodOutcome::Landed { impact_speed, .. } => {
                    assert_eq!(wanted, End::Landed);
                    let speed = model.velocity * 3600.0;
                    assert!(close(impact_speed, speed, 1e-6 * speed.abs().max(1.0)));
                    landed += 1;
                    break;
                }
                PeriodOutcome::OutOfFuel { impact_speed, .. } => {
                    assert_eq!(wanted, End::OutOfFuel);
                    let speed = model.velocity * 3600.0;
                    assert!(close(impact_speed, speed, 1e-9 * speed.abs().max(1.0)));
                    fallen += 1;
                    break;
                }
            }
        }
    }
    assert_eq!(landed + fallen, 300);
}
