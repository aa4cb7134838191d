use vstd::prelude::*;
use crate::fixed::{Fixed, Vec2, quotient, difference};
use crate::dynamics::{
    FilterCoefficients, MovingEntityState, coefficients, coefficients_of, step, step_result,
};
use crate::config::{Config, ConfigError, config_error, damping_of};

verus! {

/// Where the two balls stand after a frame, to be drawn.
#[derive(Clone, Copy, Debug, PartialEq, Eq, Structural)]
pub struct FramePositions {
    pub main: Vec2,
    pub follower: Vec2,
}

/// The velocity seen when a point moves from `old` to `new` in `dt`; over a
/// frame of length zero the velocity seen before, `prev`, is kept.
pub open spec fn observed_velocity(new: Vec2, old: Vec2, dt: Fixed, prev: Vec2) -> Vec2 {
    if dt.micros == 0 {
        prev
    } else {
        Vec2 {
            x: Fixed { micros: quotient(difference(new.x.micros as int, old.x.micros as int), dt.micros as int) as i64 },
            y: Fixed { micros: quotient(difference(new.y.micros as int, old.y.micros as int), dt.micros as int) as i64 },
        }
    }
}

/// The main ball after a frame of length `dt` in which the pointer was at
/// `sample`; with no sample it holds its position, and so stands still.
pub open spec fn observe(main: MovingEntityState, sample: Option<Vec2>, dt: Fixed) -> MovingEntityState {
    match sample {
        None => MovingEntityState {
            position: main.position,
            velocity: Vec2 { x: Fixed { micros: 0 }, y: Fixed { micros: 0 } },
        },
        Some(p) => MovingEntityState {
            position: p,
            velocity: observed_velocity(p, main.position, dt, main.velocity),
        },
    }
}

/// The state the frame loop carries: the filter's coefficients, the main
/// ball that tracks the pointer, and the follower that trails it.
#[derive(Clone, Copy, Debug, PartialEq, Eq, Structural)]
pub struct FrameDriver {
    pub coefficients: FilterCoefficients,
    pub main: MovingEntityState,
    pub follower: MovingEntityState,
}

fn observe_velocity(new: Vec2, old: Vec2, dt: Fixed, prev: Vec2) -> (r: Vec2)
    ensures
        r == observed_velocity(new, old, dt, prev),
{
    if dt.micros == 0 {
        prev
    } else {
        Vec2 { x: new.x.minus(old.x).over(dt), y: new.y.minus(old.y).over(dt) }
    }
}

impl FrameDriver {
    /// Checks `config` and, where it can be used, places both balls at rest
    /// at their starting points.
    pub fn new(config: &Config) -> (r: Result<FrameDriver, ConfigError>)
        ensures
            match r {
                Ok(d) => config_error(*config) is None && d == (FrameDriver {
                    coefficients: coefficients_of(damping_of(*config)),
                    main: MovingEntityState {
                        position: Vec2 {
                            x: config.main_ball.starting_position.x,
                            y: config.main_ball.starting_position.y,
                        },
                        velocity: Vec2 { x: Fixed { micros: 0 }, y: Fixed { micros: 0 } },
                    },
                    follower: MovingEntityState {
                        position: Vec2 {
                            x: config.follower_ball.starting_position.x,
                            y: config.follower_ball.starting_position.y,
                        },
                        velocity: Vec2 { x: Fixed { micros: 0 }, y: Fixed { micros: 0 } },
                    },
                }),
                Err(e) => config_error(*config) == Some(e),
            },
    {
        let p = match config.validate() {
            Ok(p) => p,
            Err(e) => {
                return Err(e);
            },
        };
        Ok(FrameDriver {
            coefficients: coefficients(p),
            main: MovingEntityState::at_rest(config.main_ball.starting_position.truncate()),
            follower: MovingEntityState::at_rest(config.follower_ball.starting_position.truncate()),
        })
    }

    /// One frame: take the pointer sample, if any, as the main ball's new
    /// position and its motion as its velocity (with no sample the main ball
    /// holds its place, at velocity zero); then step the follower
    /// toward the main ball; then report both positions.
    pub fn tick(&mut self, sample: Option<Vec2>, dt: Fixed) -> (r: FramePositions)
        requires
            dt.micros >= 0,
        ensures
            final(self).coefficients == old(self).coefficients,
            final(self).main == observe(old(self).main, sample, dt),
            final(self).follower == step_result(
                old(self).coefficients,
                dt,
                final(self).main.position,
                final(self).main.velocity,
                old(self).follower,
            ),
            r == (FramePositions { main: final(self).main.position, follower: final(self).follower.position }),
    {
        match sample {
            Some(p) => {
                let v = observe_velocity(p, self.main.position, dt, self.main.velocity);
                self.main = MovingEntityState { position: p, velocity: v };
            },
            None => {
                self.main = MovingEntityState::at_rest(self.main.position);
            },
        }
        self.follower = step(self.coefficients, dt, self.main.position, self.main.velocity, self.follower);
        FramePositions { main: self.main.position, follower: self.follower.position }
    }
}

} // verus!
