use ball_follow::config::{Ball, BallRole, Config, ConfigError, Rgba};
use ball_follow::driver::{FrameDriver, FramePositions};
use ball_follow::dynamics::{
    coefficients, step, DampingParameters, FilterCoefficients, MovingEntityState,
};
use ball_follow::fixed::{Fixed, Vec2, Vec3};

fn fx(v: f64) -> Fixed {
    Fixed::from_micros((v * 1_000_000.0).round() as i64)
}

fn to_f64(v: Fixed) -> f64 {
    v.micros() as f64 / 1_000_000.0
}

fn v2(x: f64, y: f64) -> Vec2 {
    Vec2::new(fx(x), fx(y))
}

fn params(frequency: f64, damping_ratio: f64, response: f64) -> DampingParameters {
    DampingParameters {
        frequency: fx(frequency),
        damping_ratio: fx(damping_ratio),
        response: fx(response),
    }
}

fn ball(size: f64, x: f64, y: f64) -> Ball {
    Ball {
        size: fx(size),
        starting_position: Vec3::new(fx(x), fx(y), fx(0.0)),
        color: Rgba { r: fx(1.0), g: fx(0.5), b: fx(0.0), a: fx(1.0) },
    }
}

fn config(frequency: f64, strength: f64, response: f64) -> Config {
    Config {
        main_ball: ball(20.0, 0.0, 0.0),
        follower_ball: ball(10.0, 0.0, 0.0),
        dampening_frequency: fx(frequency),
        dampening_strength: fx(strength),
        dampening_response: fx(response),
    }
}

const SIXTIETH: f64 = 1.0 / 60.0;

#[test]
fn coefficient_derivation() {
    let c = coefficients(params(1.0, 0.5, 2.0));
    let pi = std::f64::consts::PI;
    assert!((to_f64(c.k1) - 0.5 / pi).abs() < 2e-6);
    assert!((to_f64(c.k2) - 1.0 / ((2.0 * pi) * (2.0 * pi))).abs() < 2e-6);
    // k3 = r zeta / (2 pi f) = 2 * 0.5 / (2 pi)
    assert!((to_f64(c.k3) - 1.0 / (2.0 * pi)).abs() < 2e-6);
    assert_eq!(c.k1.micros(), 159_154);
    assert_eq!(c.k2.micros(), 25_330);
    assert_eq!(c.k3.micros(), 159_154);
}

#[test]
fn coefficients_of_fast_filter_round_k2_to_zero() {
    let c = coefficients(params(1_000_000_000.0, 1.0, 0.0));
    assert_eq!(c.k2.micros(), 0);
}

#[test]
fn zero_dt_identity() {
    let c = coefficients(params(2.0, 0.7, 1.5));
    let s = MovingEntityState { position: v2(1.5, -2.0), velocity: v2(3.0, 4.0) };
    let r = step(c, Fixed::zero(), v2(100.0, 50.0), v2(-7.0, 9.0), s);
    assert_eq!(r, s);
}

#[test]
fn step_is_deterministic() {
    let c = coefficients(params(1.3, 0.4, 2.0));
    let s = MovingEntityState { position: v2(0.25, 1.0), velocity: v2(-1.0, 0.5) };
    let a = step(c, fx(SIXTIETH), v2(5.0, -3.0), v2(2.0, 1.0), s);
    let b = step(c, fx(SIXTIETH), v2(5.0, -3.0), v2(2.0, 1.0), s);
    assert_eq!(a, b);
    assert_ne!(a, s);
}

#[test]
fn rest_at_target_is_kept() {
    let c = coefficients(params(2.0, 1.0, 1.0));
    let s = MovingEntityState::at_rest(v2(4.0, -2.5));
    let r = step(c, fx(SIXTIETH), v2(4.0, -2.5), Vec2::zero(), s);
    assert_eq!(r, s);
}

#[test]
fn one_step_exact_values() {
    // k1 = 0.159154, k2 = 0.006332, t = 1/60: the velocity moves by
    // t * 10 / k2 and the position by t times the new velocity.
    let c = coefficients(params(2.0, 1.0, 0.0));
    assert_eq!(c.k2.micros(), 6_332);
    let r = step(c, fx(SIXTIETH), v2(10.0, 0.0), Vec2::zero(), MovingEntityState::at_rest(Vec2::zero()));
    assert_eq!(r.velocity.x.micros(), 16_667 * 10_000_000 / 6_332);
    assert_eq!(r.position.x.micros(), 16_667 * (16_667i64 * 10_000_000 / 6_332) / 1_000_000);
    assert_eq!(r.velocity.y.micros(), 0);
    assert_eq!(r.position.y.micros(), 0);
}

#[test]
fn convergence_to_held_target() {
    let c = coefficients(params(1.0, 1.0, 0.0));
    let mut s = MovingEntityState::at_rest(Vec2::zero());
    let target = v2(3.0, -4.0);
    for _ in 0..600 {
        s = step(c, fx(SIXTIETH), target, Vec2::zero(), s);
    }
    assert!((to_f64(s.position.x) - 3.0).abs() < 1e-3);
    assert!((to_f64(s.position.y) + 4.0).abs() < 1e-3);
    assert!(to_f64(s.velocity.x).abs() < 1e-3);
    assert!(to_f64(s.velocity.y).abs() < 1e-3);
}

#[test]
fn no_overshoot_with_critical_damping() {
    for f in [0.5, 1.0, 2.0, 5.0, 20.0, 50.0, 100_000.0] {
        let c = coefficients(params(f, 1.0, 0.0));
        let mut s = MovingEntityState::at_rest(Vec2::zero());
        for _ in 0..1200 {
            s = step(c, fx(SIXTIETH), v2(10.0, 0.0), Vec2::zero(), s);
            assert!(to_f64(s.position.x) <= 10.0 + 1e-3);
        }
    }
}

#[test]
fn long_frame_is_clamped() {
    let c = coefficients(params(0.5, 1.0, 0.0));
    let s = MovingEntityState::at_rest(Vec2::zero());
    let long = step(c, fx(2.0), v2(10.0, 0.0), Vec2::zero(), s);
    let capped = step(c, fx(0.1), v2(10.0, 0.0), Vec2::zero(), s);
    assert_eq!(long, capped);
}

#[test]
fn vanishing_k2_takes_target_state() {
    let c = FilterCoefficients { k1: Fixed::zero(), k2: Fixed::zero(), k3: Fixed::zero() };
    let s = MovingEntityState::at_rest(Vec2::zero());
    let r = step(c, Fixed::from_micros(100), v2(7.0, 8.0), v2(1.0, 2.0), s);
    assert_eq!(r, MovingEntityState { position: v2(7.0, 8.0), velocity: v2(1.0, 2.0) });
}

#[test]
fn config_rejects_zero_frequency() {
    assert_eq!(FrameDriver::new(&config(0.0, 1.0, 0.0)), Err(ConfigError::NonPositiveFrequency));
}

#[test]
fn config_rejects_negative_frequency() {
    assert_eq!(FrameDriver::new(&config(-2.0, 1.0, 0.0)), Err(ConfigError::NonPositiveFrequency));
    assert_eq!(config(-0.5, -1.0, 0.0).validate(), Err(ConfigError::NonPositiveFrequency));
}

#[test]
fn config_rejects_negative_strength() {
    assert_eq!(config(2.0, -0.1, 0.0).validate(), Err(ConfigError::NegativeDampingStrength));
}

#[test]
fn config_rejects_non_positive_sizes() {
    let mut c = config(2.0, 1.0, 0.0);
    c.main_ball.size = fx(-1.0);
    assert_eq!(c.validate(), Err(ConfigError::NonPositiveSize(BallRole::Main)));
    let mut c = config(2.0, 1.0, 0.0);
    c.follower_ball.size = fx(0.0);
    assert_eq!(c.validate(), Err(ConfigError::NonPositiveSize(BallRole::Follower)));
}

#[test]
fn config_accepted_gives_damping() {
    let c = config(2.0, 0.5, 1.0);
    assert_eq!(c.validate(), Ok(params(2.0, 0.5, 1.0)));
}

#[test]
fn driver_starts_at_rest_at_starting_points() {
    let mut c = config(2.0, 1.0, 0.0);
    c.main_ball = ball(20.0, 1.0, 2.0);
    c.follower_ball = ball(10.0, -3.0, 4.0);
    let d = FrameDriver::new(&c).unwrap();
    assert_eq!(d.main, MovingEntityState::at_rest(v2(1.0, 2.0)));
    assert_eq!(d.follower, MovingEntityState::at_rest(v2(-3.0, 4.0)));
    assert_eq!(d.coefficients, coefficients(params(2.0, 1.0, 0.0)));
}

#[test]
fn end_to_end_scenario() {
    let mut d = FrameDriver::new(&config(2.0, 1.0, 0.0)).unwrap();
    let first = d.tick(Some(v2(10.0, 0.0)), fx(SIXTIETH));
    assert_eq!(first.main, v2(10.0, 0.0));
    assert_eq!(d.main.velocity.x.micros(), 10_000_000i64 * 1_000_000 / 16_667);
    let mut last = first;
    for _ in 1..120 {
        last = d.tick(Some(v2(10.0, 0.0)), fx(SIXTIETH));
    }
    assert!((to_f64(last.follower.x) - 10.0).abs() < 0.05);
    assert!(to_f64(last.follower.y).abs() < 0.05);
}

#[test]
fn missing_sample_holds_main_ball() {
    let mut d = FrameDriver::new(&config(2.0, 1.0, 0.0)).unwrap();
    d.tick(Some(v2(1.0, 1.0)), fx(0.5));
    let before = d.main;
    assert_ne!(before.velocity, Vec2::zero());
    let out = d.tick(None, fx(SIXTIETH));
    assert_eq!(d.main, MovingEntityState::at_rest(before.position));
    assert_eq!(out.main, v2(1.0, 1.0));
    assert_ne!(out.follower, Vec2::zero());
}

#[test]
fn zero_dt_keeps_main_velocity() {
    let mut d = FrameDriver::new(&config(2.0, 1.0, 0.0)).unwrap();
    d.tick(Some(v2(1.0, -2.0)), fx(0.5));
    assert_eq!(d.main.velocity, v2(2.0, -4.0));
    let follower = d.follower;
    let out = d.tick(Some(v2(5.0, 5.0)), Fixed::zero());
    assert_eq!(d.main.velocity, v2(2.0, -4.0));
    assert_eq!(d.main.position, v2(5.0, 5.0));
    assert_eq!(d.follower, follower);
    assert_eq!(out, FramePositions { main: v2(5.0, 5.0), follower: follower.position });
}

#[test]
fn fixed_arithmetic_rounds_toward_zero_and_saturates() {
    assert_eq!(Fixed::from_micros(-7).times(Fixed::from_micros(500_000)).micros(), -3);
    assert_eq!(Fixed::from_whole(1).over(Fixed::from_whole(3)).micros(), 333_333);
    assert_eq!(Fixed::from_whole(-1).over(Fixed::from_whole(3)).micros(), -333_333);
    assert_eq!(Fixed::from_micros(i64::MAX).plus(Fixed::from_micros(1)).micros(), i64::MAX);
    assert_eq!(Fixed::from_micros(i64::MIN).minus(Fixed::from_micros(1)).micros(), i64::MIN);
    assert_eq!(Fixed::from_whole(2).times_over(Fixed::from_whole(3), Fixed::from_whole(4)).micros(), 1_500_000);
}

#[test]
fn vanishing_k2_takes_target_over_a_whole_frame() {
    let c = FilterCoefficients { k1: Fixed::zero(), k2: Fixed::zero(), k3: Fixed::zero() };
    let s = MovingEntityState::at_rest(Vec2::zero());
    let r = step(c, fx(SIXTIETH), v2(10.0, 0.0), Vec2::zero(), s);
    assert_eq!(r, MovingEntityState::at_rest(v2(10.0, 0.0)));
}

#[test]
fn very_high_frequency_takes_target_at_once() {
    let c = coefficients(params(1_000_000_000.0, 1.0, 0.0));
    let s = MovingEntityState { position: v2(-3.0, 2.0), velocity: v2(5.0, 5.0) };
    let r = step(c, fx(SIXTIETH), v2(10.0, 1.0), v2(0.5, 0.25), s);
    assert_eq!(r, MovingEntityState { position: v2(10.0, 1.0), velocity: v2(0.5, 0.25) });
}

#[test]
fn fast_filter_is_integrated_not_snapped() {
    // 20 Hz with dt = 1/60: k2 = 0.000063 is below t^2 + t k1, so the frame
    // runs with k1 = 4 t = 0.066668 and k2 = t^2 + t k1 rounded up = 0.001389.
    let c = coefficients(params(20.0, 1.0, 0.0));
    assert!(c.k2.micros() > 0);
    let r = step(c, fx(SIXTIETH), v2(10.0, 0.0), Vec2::zero(), MovingEntityState::at_rest(Vec2::zero()));
    let v = 16_667i64 * 10_000_000 / 1_389;
    assert_eq!(r.velocity.x.micros(), v);
    assert_eq!(r.position.x.micros(), 16_667 * v / 1_000_000);
    assert_ne!(r.position, v2(10.0, 0.0));
}

#[test]
fn position_moves_by_frame_times_new_velocity() {
    for f in [2.0, 5.0, 20.0, 50.0] {
        let c = coefficients(params(f, 1.0, 0.5));
        let s = MovingEntityState { position: v2(1.0, -2.0), velocity: v2(0.5, 3.0) };
        let r = step(c, fx(SIXTIETH), v2(10.0, 4.0), v2(2.0, -1.0), s);
        assert_ne!(r.position, v2(10.0, 4.0));
        assert_eq!(r.position.x, s.position.x.plus(fx(SIXTIETH).times(r.velocity.x)));
        assert_eq!(r.position.y, s.position.y.plus(fx(SIXTIETH).times(r.velocity.y)));
    }
}

#[test]
fn no_overshoot_at_high_frequency_any_frame_length() {
    for f in [3.0, 4.0, 5.0, 20.0, 50.0] {
        for dt in [0.001, 0.008, SIXTIETH, 1.0 / 30.0, 0.1] {
            let c = coefficients(params(f, 1.0, 0.0));
            let mut s = MovingEntityState::at_rest(Vec2::zero());
            for _ in 0..600 {
                s = step(c, fx(dt), v2(10.0, -10.0), Vec2::zero(), s);
                assert!(to_f64(s.position.x) <= 10.0 + 1e-3);
                assert!(to_f64(s.position.y) >= -10.0 - 1e-3);
            }
        }
    }
}

#[test]
fn convergence_at_very_high_frequency() {
    for f in [100_000.0, 1_000_000.0] {
        let c = coefficients(params(f, 1.0, 0.0));
        let mut s = MovingEntityState::at_rest(Vec2::zero());
        for _ in 0..600 {
            s = step(c, fx(SIXTIETH), v2(10.0, 0.0), Vec2::zero(), s);
        }
        assert!((to_f64(s.position.x) - 10.0).abs() < 1e-3);
        assert!(to_f64(s.velocity.x).abs() < 1e-3);
    }
}

#[test]
fn end_to_end_scenario_at_thirty_frames_per_second() {
    let mut d = FrameDriver::new(&config(2.0, 1.0, 0.0)).unwrap();
    let mut last = d.tick(Some(v2(10.0, 0.0)), fx(1.0 / 30.0));
    assert_ne!(last.follower, v2(10.0, 0.0));
    for _ in 1..60 {
        last = d.tick(Some(v2(10.0, 0.0)), fx(1.0 / 30.0));
        assert!(to_f64(last.follower.x) <= 10.0 + 1e-3);
    }
    assert!((to_f64(last.follower.x) - 10.0).abs() < 0.05);
}
