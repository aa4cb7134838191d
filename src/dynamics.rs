use vstd::prelude::*;
use vstd::arithmetic::div_mod::lemma_div_is_ordered;
use crate::fixed::{
    Fixed, Vec2, SCALE, magnitude, div_toward_zero, saturate, sum, difference, product,
    product_over, div_i128, saturate_i128, lemma_i64_product_bound,
};

verus! {

/// Pi, in millionths.
pub const PI_MICROS: i64 = 3_141_593;

/// Two pi, in millionths.
pub const TWO_PI_MICROS: i64 = 6_283_185;

/// The longest frame the filter integrates at once: 0.1 s, in millionths.
/// A longer frame (after a stall) is integrated as this one.
pub const MAX_DT_MICROS: i64 = 100_000;

/// Physical tuning of the follower: how fast it reacts (`frequency`, in Hz,
/// positive), how it settles (`damping_ratio`, not negative; 1 is critical),
/// and how it anticipates (`response`).
#[derive(Clone, Copy, Debug, PartialEq, Eq, Structural)]
pub struct DampingParameters {
    pub frequency: Fixed,
    pub damping_ratio: Fixed,
    pub response: Fixed,
}

/// The filter's constants, derived once from `DampingParameters`:
/// `k1 = zeta / (pi f)`, `k2 = 1 / (2 pi f)^2`, `k3 = r zeta / (2 pi f)`.
#[derive(Clone, Copy, Debug, PartialEq, Eq, Structural)]
pub struct FilterCoefficients {
    pub k1: Fixed,
    pub k2: Fixed,
    pub k3: Fixed,
}

/// Where an entity is and how fast it moves.
#[derive(Clone, Copy, Debug, PartialEq, Eq, Structural)]
pub struct MovingEntityState {
    pub position: Vec2,
    pub velocity: Vec2,
}

impl MovingEntityState {
    /// An entity at `position` that does not move.
    pub fn at_rest(position: Vec2) -> (r: MovingEntityState)
        ensures
            r.position == position,
            r.velocity.x.micros == 0,
            r.velocity.y.micros == 0,
    {
        MovingEntityState { position, velocity: Vec2::zero() }
    }
}

/// Raw angular frequency `2 pi f` for a raw frequency `f`.
pub open spec fn angular_frequency(f: int) -> int {
    product(TWO_PI_MICROS as int, f)
}

/// The coefficients of `p`, each rounded once from its formula:
/// raw `k1 = zeta S^2 / (PI f)`, raw `k2 = S^3 / w^2`, raw `k3 = r zeta / w`,
/// with every quantity raw and `w` the raw angular frequency.
pub open spec fn coefficients_of(p: DampingParameters) -> FilterCoefficients {
    let f = p.frequency.micros as int;
    let z = p.damping_ratio.micros as int;
    let r = p.response.micros as int;
    let w = angular_frequency(f);
    let s = SCALE as int;
    FilterCoefficients {
        k1: Fixed { micros: saturate(div_toward_zero(z * s * s, PI_MICROS * f)) as i64 },
        k2: Fixed { micros: saturate(div_toward_zero(s * s * s, w * w)) as i64 },
        k3: Fixed { micros: product_over(r, z, w) as i64 },
    }
}

proof fn lemma_angular_frequency_positive(f: int)
    requires
        1 <= f <= i64::MAX,
    ensures
        6 <= angular_frequency(f) <= i64::MAX,
{
    let n = TWO_PI_MICROS * f;
    assert(n >= 6_283_185) by (nonlinear_arith)
        requires
            n == 6_283_185 * f,
            f >= 1,
    ;
    lemma_div_is_ordered(6_283_185, n, SCALE as int);
    assert(6_283_185int / 1_000_000int == 6);
}

/// Derives the filter's coefficients from its physical parameters.
pub fn coefficients(p: DampingParameters) -> (c: FilterCoefficients)
    requires
        p.frequency.micros > 0,
    ensures
        c == coefficients_of(p),
{
    let f = p.frequency;
    proof {
        lemma_angular_frequency_positive(f.micros as int);
    }
    let w = Fixed::from_micros(TWO_PI_MICROS).times(f);
    let z: i128 = p.damping_ratio.micros as i128;
    let s: i128 = SCALE as i128;
    proof {
        assert(magnitude(z as int) <= 0x8000_0000_0000_0000);
        assert(magnitude(z * s) <= 0x8000_0000_0000_0000 * 1_000_000) by (nonlinear_arith)
            requires
                magnitude(z as int) <= 0x8000_0000_0000_0000,
                s == 1_000_000,
        ;
        assert(magnitude(z * s * s) <= 0x8000_0000_0000_0000 * 1_000_000 * 1_000_000)
            by (nonlinear_arith)
            requires
                magnitude(z * s) <= 0x8000_0000_0000_0000 * 1_000_000,
                s == 1_000_000,
        ;
        assert(0 < PI_MICROS * f.micros <= 3_141_593 * 0x8000_0000_0000_0000) by (nonlinear_arith)
            requires
                1 <= f.micros <= 0x8000_0000_0000_0000,
        ;
        lemma_i64_product_bound(w.micros as int, w.micros as int);
        assert(w.micros * w.micros > 0) by (nonlinear_arith)
            requires
                w.micros >= 6,
        ;
        lemma_i64_product_bound(p.response.micros as int, p.damping_ratio.micros as int);
    }
    let k1 = saturate_i128(div_i128(z * s * s, PI_MICROS as i128 * f.micros as i128));
    let wm: i128 = w.micros as i128;
    let k2 = saturate_i128(div_i128(s * s * s, wm * wm));
    let k3 = p.response.times_over(p.damping_ratio, w);
    FilterCoefficients { k1: Fixed::from_micros(k1), k2: Fixed::from_micros(k2), k3 }
}

/// The frame length actually integrated: `dt`, at most `MAX_DT_MICROS`.
pub open spec fn effective_dt(dt: int) -> int {
    if dt > MAX_DT_MICROS {
        MAX_DT_MICROS as int
    } else {
        dt
    }
}

/// The larger of two integers.
pub open spec fn larger(a: int, b: int) -> int {
    if a >= b {
        a
    } else {
        b
    }
}

/// Whether `k2` suits a frame of length `t`: `k2 >= t^2 + t k1`, compared
/// exactly (raw `k2` carries the scale once, raw `t^2` and `t k1` twice).
pub open spec fn fits_frame(c: FilterCoefficients, t: int) -> bool {
    t * t + t * c.k1.micros <= c.k2.micros * SCALE
}

/// The coefficients a frame of length `t` is integrated with. Where `k2`
/// suits the frame they are `c`. Otherwise the filter is faster than the
/// frame can follow: `k1` is raised to at least `4 t` and `k2` to
/// `t^2 + t k1`, rounded up: with `a = t^2 / k2` and `b = t k1 / k2` this
/// keeps `a + b <= 1` and, up to that rounding, `(a + b)^2 >= 4 a`: the
/// step's two modes real and between 0 and 1.
pub open spec fn frame_coefficients(c: FilterCoefficients, t: int) -> FilterCoefficients {
    if fits_frame(c, t) {
        c
    } else {
        let k1 = larger(c.k1.micros as int, 4 * t);
        FilterCoefficients {
            k1: Fixed { micros: k1 as i64 },
            k2: Fixed { micros: ((t * t + t * k1 + SCALE - 1) / SCALE as int) as i64 },
            k3: c.k3,
        }
    }
}

/// One axis of an integrated step of length `t`: the velocity moves by
/// `t (x + k3 xd - y - k1 yd) / k2`, then the position by `t` times the new
/// velocity. The result is (position, velocity).
pub open spec fn axis_step(c: FilterCoefficients, t: int, x: int, xd: int, y: int, yd: int) -> (int, int) {
    let drive = difference(
        difference(sum(x, product(c.k3.micros as int, xd)), y),
        product(c.k1.micros as int, yd),
    );
    let v = sum(yd, product_over(t, drive, c.k2.micros as int));
    (sum(y, product(t, v)), v)
}

/// The follower's state after a frame of length `dt`, following a target at
/// `x` that moves with velocity `xd`. A frame of length zero changes
/// nothing. Where `k2` is zero (or less) the follower takes the target's
/// state at once. Otherwise the frame, at most `MAX_DT_MICROS` long, is
/// integrated with `frame_coefficients`: the new position is the old one
/// plus the frame length times the new velocity.
pub open spec fn step_result(c: FilterCoefficients, dt: Fixed, x: Vec2, xd: Vec2, s: MovingEntityState) -> MovingEntityState {
    if dt.micros == 0 {
        s
    } else {
        let t = effective_dt(dt.micros as int);
        let fc = frame_coefficients(c, t);
        if c.k2.micros <= 0 {
            MovingEntityState { position: x, velocity: xd }
        } else {
            let ax = axis_step(fc, t, x.x.micros as int, xd.x.micros as int,
                s.position.x.micros as int, s.velocity.x.micros as int);
            let ay = axis_step(fc, t, x.y.micros as int, xd.y.micros as int,
                s.position.y.micros as int, s.velocity.y.micros as int);
            MovingEntityState {
                position: Vec2 { x: Fixed { micros: ax.0 as i64 }, y: Fixed { micros: ay.0 as i64 } },
                velocity: Vec2 { x: Fixed { micros: ax.1 as i64 }, y: Fixed { micros: ay.1 as i64 } },
            }
        }
    }
}

fn step_axis(c: FilterCoefficients, t: Fixed, x: Fixed, xd: Fixed, y: Fixed, yd: Fixed) -> (r: (Fixed, Fixed))
    requires
        c.k2.micros > 0,
    ensures
        r.0.micros == axis_step(c, t.micros as int, x.micros as int, xd.micros as int,
            y.micros as int, yd.micros as int).0,
        r.1.micros == axis_step(c, t.micros as int, x.micros as int, xd.micros as int,
            y.micros as int, yd.micros as int).1,
{
    let drive = x.plus(c.k3.times(xd)).minus(y).minus(c.k1.times(yd));
    let v = yd.plus(t.times_over(drive, c.k2));
    (y.plus(t.times(v)), v)
}

/// Computes `frame_coefficients(c, t)` for a frame no longer than
/// `MAX_DT_MICROS`.
fn frame_coeffs(c: FilterCoefficients, t: Fixed) -> (r: FilterCoefficients)
    requires
        0 < t.micros <= MAX_DT_MICROS,
        c.k2.micros > 0,
    ensures
        r == frame_coefficients(c, t.micros as int),
        r.k2.micros > 0,
{
    let tm: i128 = t.micros as i128;
    let k1: i128 = c.k1.micros as i128;
    proof {
        assert(tm * tm <= 10_000_000_000) by (nonlinear_arith)
            requires
                0 < tm <= 100_000,
        ;
        assert(magnitude(tm * k1) <= 100_000 * 0x8000_0000_0000_0000) by (nonlinear_arith)
            requires
                0 < tm <= 100_000,
                magnitude(k1 as int) <= 0x8000_0000_0000_0000,
        ;
        lemma_i64_product_bound(c.k2.micros as int, SCALE as int);
    }
    if tm * tm + tm * k1 <= c.k2.micros as i128 * SCALE as i128 {
        return c;
    }
    let k1e: i128 = if k1 >= 4 * tm {
        k1
    } else {
        4 * tm
    };
    let s: i128 = SCALE as i128;
    proof {
        assert(0 < tm * k1e <= 100_000 * 0x8000_0000_0000_0000) by (nonlinear_arith)
            requires
                0 < tm <= 100_000,
                0 < k1e <= 0x8000_0000_0000_0000,
        ;
    }
    let n: i128 = tm * tm + tm * k1e;
    let q: i128 = div_i128(n + s - 1, s);
    proof {
        let big: int = 10_000_000_000int + 100_000int * 0x8000_0000_0000_0000int + 1_000_000int;
        lemma_div_is_ordered(n + s - 1, big, s as int);
        lemma_div_is_ordered(s as int, n + s - 1, s as int);
        assert(big / 1_000_000 < 0x7fff_ffff_ffff_ffff);
        assert(1_000_000int / 1_000_000int == 1);
    }
    FilterCoefficients { k1: Fixed::from_micros(k1e as i64), k2: Fixed::from_micros(q as i64), k3: c.k3 }
}

/// Advances the follower `s` by one frame of length `dt` toward a target at
/// `target_position` moving with `target_velocity`.
pub fn step(c: FilterCoefficients, dt: Fixed, target_position: Vec2, target_velocity: Vec2, s: MovingEntityState) -> (r: MovingEntityState)
    requires
        dt.micros >= 0,
    ensures
        r == step_result(c, dt, target_position, target_velocity, s),
{
    if dt.micros == 0 {
        return s;
    }
    if c.k2.micros <= 0 {
        return MovingEntityState { position: target_position, velocity: target_velocity };
    }
    let t = dt.min(Fixed::from_micros(MAX_DT_MICROS));
    let fc = frame_coeffs(c, t);
    let (px, vx) = step_axis(fc, t, target_position.x, target_velocity.x, s.position.x, s.velocity.x);
    let (py, vy) = step_axis(fc, t, target_position.y, target_velocity.y, s.position.y, s.velocity.y);
    MovingEntityState { position: Vec2 { x: px, y: py }, velocity: Vec2 { x: vx, y: vy } }
}

/// A step is a function of its inputs: two steps from the same
/// coefficients, frame length, target and state end in the same state.
pub proof fn lemma_step_deterministic(
    c: FilterCoefficients,
    dt: Fixed,
    x: Vec2,
    xd: Vec2,
    s: MovingEntityState,
    r1: MovingEntityState,
    r2: MovingEntityState,
)
    requires
        r1 == step_result(c, dt, x, xd, s),
        r2 == step_result(c, dt, x, xd, s),
    ensures
        r1 == r2,
{
}

/// A frame of length zero leaves the follower as it was, whatever the
/// target does.
pub proof fn lemma_zero_dt_identity(c: FilterCoefficients, x: Vec2, xd: Vec2, s: MovingEntityState)
    ensures
        step_result(c, Fixed { micros: 0 }, x, xd, s) == s,
{
}

/// The coefficients a frame is integrated with suit that frame.
pub proof fn lemma_frame_coefficients_fit(c: FilterCoefficients, t: int)
    requires
        0 < t <= MAX_DT_MICROS,
        c.k2.micros > 0,
    ensures
        ({
            let fc = frame_coefficients(c, t);
            &&& fc.k2.micros > 0
            &&& fits_frame(fc, t)
            &&& fc.k3 == c.k3
            &&& (c.k1.micros >= 0 ==> fc.k1.micros >= 0)
        }),
{
    if !fits_frame(c, t) {
        let k1 = larger(c.k1.micros as int, 4 * t);
        let s = SCALE as int;
        let n = t * t + t * k1;
        assert(0 < t * k1 <= 100_000 * 0x8000_0000_0000_0000) by (nonlinear_arith)
            requires
                0 < t <= 100_000,
                4 * t <= k1 <= 0x8000_0000_0000_0000,
        ;
        assert(0 < t * t <= 10_000_000_000) by (nonlinear_arith)
            requires
                0 < t <= 100_000,
        ;
        let q = (n + s - 1) / s;
        assert(q * s >= n) by (nonlinear_arith)
            requires
                q == (n + s - 1) / s,
                s == 1_000_000,
        ;
        let big: int = 10_000_000_000int + 100_000int * 0x8000_0000_0000_0000int + 1_000_000int;
        lemma_div_is_ordered(n + s - 1, big, s);
        lemma_div_is_ordered(s, n + s - 1, s);
        assert(big / 1_000_000 < 0x7fff_ffff_ffff_ffff);
        assert(1_000_000int / 1_000_000int == 1);
    }
}

proof fn lemma_axis_at_rest(c: FilterCoefficients, t: int, x: int)
    requires
        c.k2.micros > 0,
        i64::MIN <= x <= i64::MAX,
    ensures
        axis_step(c, t, x, 0, x, 0) == (x, 0int),
{
    let k2s = c.k2.micros as int;
    let k1 = c.k1.micros as int;
    let k3 = c.k3.micros as int;
    assert(k3 * 0 == 0 && k1 * 0 == 0 && t * 0 == 0);
    assert(div_toward_zero(0, SCALE as int) == 0);
    assert(div_toward_zero(0, k2s) == 0);
    assert(product(k3, 0) == 0);
    assert(product(k1, 0) == 0);
    let drive = difference(difference(sum(x, product(k3, 0)), x), product(k1, 0));
    assert(drive == 0);
    assert(product_over(t, drive, k2s) == 0);
    assert(product(t, 0) == 0);
}

/// A follower resting on a target that rests stays where it is: a held
/// target is an equilibrium of every step.
pub proof fn lemma_rest_at_target_is_kept(c: FilterCoefficients, dt: Fixed, x: Vec2)
    requires
        dt.micros >= 0,
    ensures
        ({
            let still = Vec2 { x: Fixed { micros: 0 }, y: Fixed { micros: 0 } };
            let s = MovingEntityState { position: x, velocity: still };
            step_result(c, dt, x, still, s) == s
        }),
{
    if dt.micros != 0 {
        let t = effective_dt(dt.micros as int);
        if c.k2.micros > 0 {
            let fc = frame_coefficients(c, t);
            lemma_frame_coefficients_fit(c, t);
            lemma_axis_at_rest(fc, t, x.x.micros as int);
            lemma_axis_at_rest(fc, t, x.y.micros as int);
        }
    }
}

/// Where `k2` is zero or less, a frame of any length takes the follower
/// straight to the target's state: nothing is divided by `k2`.
pub proof fn lemma_vanishing_k2_takes_target(c: FilterCoefficients, dt: Fixed, x: Vec2, xd: Vec2, s: MovingEntityState)
    requires
        dt.micros != 0,
        c.k2.micros <= 0,
    ensures
        step_result(c, dt, x, xd, s) == (MovingEntityState { position: x, velocity: xd }),
{
}

proof fn lemma_axis_from_rest_stays_behind(c: FilterCoefficients, t: int, x: int, y: int)
    requires
        0 < t,
        c.k1.micros >= 0,
        c.k2.micros > 0,
        fits_frame(c, t),
        i64::MIN <= y <= x <= i64::MAX,
    ensures
        y <= axis_step(c, t, x, 0, y, 0).0 <= x,
{
    let k1 = c.k1.micros as int;
    let k2 = c.k2.micros as int;
    let k3 = c.k3.micros as int;
    let s = SCALE as int;
    assert(k3 * 0 == 0 && k1 * 0 == 0);
    assert(div_toward_zero(0, s) == 0);
    assert(product(k3, 0) == 0);
    assert(product(k1, 0) == 0);
    let d = difference(difference(sum(x, product(k3, 0)), y), product(k1, 0));
    assert(d == saturate(x - y));
    assert(0 <= d <= x - y);
    let n = t * d;
    assert(n >= 0) by (nonlinear_arith)
        requires
            t > 0,
            d >= 0,
            n == t * d,
    ;
    let q = n / k2;
    assert(div_toward_zero(n, k2) == q);
    assert(0 <= q && q * k2 <= n) by (nonlinear_arith)
        requires
            n >= 0,
            k2 > 0,
            q == n / k2,
    ;
    let v = sum(0, saturate(q));
    assert(0 <= v <= q);
    assert(v == product_over(t, d, k2));
    // t v k2 <= t t d <= k2 s d, so t v <= s d.
    assert(t * v <= s * d) by (nonlinear_arith)
        requires
            t > 0,
            k2 > 0,
            d >= 0,
            0 <= v <= q,
            q * k2 <= t * d,
            t * t + t * k1 <= k2 * s,
            k1 >= 0,
    ;
    let m = t * v;
    assert(m >= 0) by (nonlinear_arith)
        requires
            t > 0,
            v >= 0,
            m == t * v,
    ;
    assert(div_toward_zero(m, s) == m / s);
    assert(0 <= m / s <= d) by (nonlinear_arith)
        requires
            0 <= m <= s * d,
            s == 1_000_000,
    ;
    assert(product(t, v) == m / s);
}

/// In one frame, a follower at rest never passes a target at rest in
/// front of it, on either axis, as long as `k1` is not negative (the
/// damping ratio is not negative).
pub proof fn lemma_no_overshoot_from_rest(c: FilterCoefficients, dt: Fixed, x: Vec2, y: Vec2)
    requires
        dt.micros > 0,
        c.k1.micros >= 0,
        y.x.micros <= x.x.micros,
        y.y.micros <= x.y.micros,
    ensures
        ({
            let still = Vec2 { x: Fixed { micros: 0 }, y: Fixed { micros: 0 } };
            let r = step_result(c, dt, x, still, MovingEntityState { position: y, velocity: still });
            &&& y.x.micros <= r.position.x.micros <= x.x.micros
            &&& y.y.micros <= r.position.y.micros <= x.y.micros
        }),
{
    let t = effective_dt(dt.micros as int);
    if c.k2.micros > 0 {
        let fc = frame_coefficients(c, t);
        lemma_frame_coefficients_fit(c, t);
        lemma_axis_from_rest_stays_behind(fc, t, x.x.micros as int, y.x.micros as int);
        lemma_axis_from_rest_stays_behind(fc, t, x.y.micros as int, y.y.micros as int);
    }
}

} // verus!
