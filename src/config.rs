use vstd::prelude::*;
use crate::fixed::{Fixed, Vec3};
use crate::dynamics::DampingParameters;

verus! {

/// A colour as red, green, blue and alpha.
#[derive(Clone, Copy, Debug, PartialEq, Eq, Structural)]
pub struct Rgba {
    pub r: Fixed,
    pub g: Fixed,
    pub b: Fixed,
    pub a: Fixed,
}

/// How one ball is drawn and where it starts.
#[derive(Clone, Copy, Debug, PartialEq, Eq, Structural)]
pub struct Ball {
    pub size: Fixed,
    pub starting_position: Vec3,
    pub color: Rgba,
}

/// Which of the two balls a setting belongs to.
#[derive(Clone, Copy, Debug, PartialEq, Eq, Structural)]
pub enum BallRole {
    Main,
    Follower,
}

/// The first setting of a configuration that cannot be used.
#[derive(Clone, Copy, Debug, PartialEq, Eq, Structural)]
pub enum ConfigError {
    /// The damping frequency is zero or negative.
    NonPositiveFrequency,
    /// The damping strength (the damping ratio) is negative.
    NegativeDampingStrength,
    /// A ball's size is zero or negative.
    NonPositiveSize(BallRole),
}

/// The settings read once at startup.
#[derive(Clone, Copy, Debug, PartialEq, Eq, Structural)]
pub struct Config {
    pub main_ball: Ball,
    pub follower_ball: Ball,
    pub dampening_frequency: Fixed,
    pub dampening_strength: Fixed,
    pub dampening_response: Fixed,
}

/// The first setting of `c` that cannot be used, checked in the order
/// frequency, strength, main ball size, follower ball size; `None` when all
/// can.
pub open spec fn config_error(c: Config) -> Option<ConfigError> {
    if c.dampening_frequency.micros <= 0 {
        Some(ConfigError::NonPositiveFrequency)
    } else if c.dampening_strength.micros < 0 {
        Some(ConfigError::NegativeDampingStrength)
    } else if c.main_ball.size.micros <= 0 {
        Some(ConfigError::NonPositiveSize(BallRole::Main))
    } else if c.follower_ball.size.micros <= 0 {
        Some(ConfigError::NonPositiveSize(BallRole::Follower))
    } else {
        None
    }
}

/// The damping settings of `c`, the strength being the damping ratio.
pub open spec fn damping_of(c: Config) -> DampingParameters {
    DampingParameters {
        frequency: c.dampening_frequency,
        damping_ratio: c.dampening_strength,
        response: c.dampening_response,
    }
}

impl Config {
    pub fn damping_parameters(&self) -> (r: DampingParameters)
        ensures
            r == damping_of(*self),
    {
        DampingParameters {
            frequency: self.dampening_frequency,
            damping_ratio: self.dampening_strength,
            response: self.dampening_response,
        }
    }

    /// Checks every setting; on success hands out the damping settings.
    pub fn validate(&self) -> (r: Result<DampingParameters, ConfigError>)
        ensures
            match r {
                Ok(p) => config_error(*self) is None && p == damping_of(*self),
                Err(e) => config_error(*self) == Some(e),
            },
    {
        if self.dampening_frequency.micros <= 0 {
            Err(ConfigError::NonPositiveFrequency)
        } else if self.dampening_strength.micros < 0 {
            Err(ConfigError::NegativeDampingStrength)
        } else if self.main_ball.size.micros <= 0 {
            Err(ConfigError::NonPositiveSize(BallRole::Main))
        } else if self.follower_ball.size.micros <= 0 {
            Err(ConfigError::NonPositiveSize(BallRole::Follower))
        } else {
            Ok(self.damping_parameters())
        }
    }
}

/// A configuration whose frequency is zero or negative is refused, and
/// for that reason, whatever its other settings.
pub proof fn lemma_non_positive_frequency_rejected(c: Config)
    requires
        c.dampening_frequency.micros <= 0,
    ensures
        config_error(c) == Some(ConfigError::NonPositiveFrequency),
{
}

} // verus!
