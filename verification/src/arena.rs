use vstd::prelude::*;
use crate::fp::{COORD_CAP, SCALE, abs_i};
use crate::particle::Vec2;

verus! {

/// Default window width in fixed-point pixels (1280 px).
pub const SCREEN_WIDTH: i64 = 1_280_000;

/// Default window height in fixed-point pixels (720 px).
pub const SCREEN_HEIGHT: i64 = 720_000;

/// Default restitution coefficient (1.0 in fixed point).
pub const RESTITUTION: i64 = 1000;

/// Default acceleration, fixed-point pixels per second squared.
pub const ACCELERATION_X: i64 = -1000;

pub const ACCELERATION_Y: i64 = 2000;

/// Default quadratic resistance coefficients (disabled).
pub const RESISTANCE_X: i64 = 0;

pub const RESISTANCE_Y: i64 = 0;

/// Default population size.
pub const NUM_PARTICLES: usize = 20;

/// Largest acceleration component magnitude an arena may carry.
pub const ACC_CAP: i64 = 1_000_000_000;

/// Largest resistance coefficient magnitude an arena may carry.
pub const RES_CAP: i64 = 1_000_000;

/// Largest time delta a step accepts (1000 seconds).
pub const DT_CAP: i64 = 1_000_000;

/// Largest particle mass.
pub const MASS_CAP: i64 = 1_000_000_000;

/// A rejected startup configuration.
#[derive(Clone, Copy, PartialEq, Eq, Structural, Debug)]
pub enum ConfigError {
    /// Arena dimensions or coefficients outside their ranges.
    InvalidArena,
    /// A particle whose fields violate the particle invariant.
    InvalidParticle,
}

/// The immutable rectangle `[0, width] x [0, height]` and the global
/// simulation coefficients.
#[derive(Clone, Copy, PartialEq, Eq, Structural, Debug)]
pub struct Arena {
    pub width: i64,
    pub height: i64,
    pub accel: Vec2,
    pub resist: Vec2,
    pub restitution: i64,
}

impl Arena {
    /// Dimensions are positive, coefficients are within their caps,
    /// and the restitution is a fraction in `[0, 1]`.
    pub open spec fn valid(self) -> bool {
        &&& 0 < self.width <= COORD_CAP
        &&& 0 < self.height <= COORD_CAP
        &&& abs_i(self.accel.x as int) <= ACC_CAP
        &&& abs_i(self.accel.y as int) <= ACC_CAP
        &&& abs_i(self.resist.x as int) <= RES_CAP
        &&& abs_i(self.resist.y as int) <= RES_CAP
        &&& 0 <= self.restitution <= SCALE
    }

    /// Builds an arena, rejecting out-of-range constants.
    pub fn new(width: i64, height: i64, accel: Vec2, resist: Vec2, restitution: i64) -> (r: Result<
        Arena,
        ConfigError,
    >)
        ensures
            r is Ok <==> (Arena { width, height, accel, resist, restitution }).valid(),
            r is Ok ==> r->Ok_0 == (Arena { width, height, accel, resist, restitution }),
            r is Err ==> r->Err_0 == ConfigError::InvalidArena,
    {
        let a = Arena { width, height, accel, resist, restitution };
        if a.is_valid() {
            Ok(a)
        } else {
            Err(ConfigError::InvalidArena)
        }
    }

    /// Runtime check of the arena invariant.
    pub fn is_valid(&self) -> (r: bool)
        ensures
            r == self.valid(),
    {
        0 < self.width && self.width <= COORD_CAP && 0 < self.height && self.height <= COORD_CAP
            && -ACC_CAP <= self.accel.x && self.accel.x <= ACC_CAP && -ACC_CAP <= self.accel.y
            && self.accel.y <= ACC_CAP && -RES_CAP <= self.resist.x && self.resist.x <= RES_CAP
            && -RES_CAP <= self.resist.y && self.resist.y <= RES_CAP && 0 <= self.restitution
            && self.restitution <= SCALE
    }
}

impl Arena {
    /// The shipped constants as a value: a 1280 x 720 arena, acceleration
    /// `(-1, 2)`, resistance disabled, perfectly elastic walls.
    pub open spec fn default_spec() -> Arena {
        Arena {
            width: SCREEN_WIDTH,
            height: SCREEN_HEIGHT,
            accel: Vec2 { x: ACCELERATION_X, y: ACCELERATION_Y },
            resist: Vec2 { x: RESISTANCE_X, y: RESISTANCE_Y },
            restitution: RESTITUTION,
        }
    }
}

impl Default for Arena {
    /// The shipped constants: a 1280 x 720 arena, acceleration `(-1, 2)`,
    /// resistance disabled, perfectly elastic walls.
    fn default() -> (r: Arena)
        ensures
            r == Arena::default_spec(),
            r.valid(),
    {
        Arena {
            width: SCREEN_WIDTH,
            height: SCREEN_HEIGHT,
            accel: Vec2 { x: ACCELERATION_X, y: ACCELERATION_Y },
            resist: Vec2 { x: RESISTANCE_X, y: RESISTANCE_Y },
            restitution: RESTITUTION,
        }
    }
}

} // verus!
