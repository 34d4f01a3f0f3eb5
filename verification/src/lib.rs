//! Simulation core of a top-down 2D shooter.
//!
//! The world is a dense entity store; per tick the stages run in order:
//! movement, enemy AI, shooting, collision, damage and lifecycle.
//! All coordinates are fixed-point integers in milli-units (1000 per
//! world unit), all times are in milliseconds, so every stage is exact
//! integer arithmetic.

use vstd::prelude::*;

pub mod collision;
pub mod components;
pub mod damage;
pub mod enemy;
pub mod geometry;
pub mod movement;
mod rng;
pub mod shooting;
pub mod timer;
pub mod world;

verus! {

/// Positions are clamped to this bound (milli-units); it keeps every
/// displacement computation inside `i64`.
pub const POS_LIMIT: i64 = 1_000_000_000_000;

/// Upper bound (exclusive) on entity speeds, in milli-units per second.
pub const SPEED_LIMIT: i64 = 16_000_000;

/// Upper bound (exclusive) on a tick's delta-time, in milliseconds.
pub const DT_LIMIT: i64 = 100_000;

/// Scale of a normalized direction vector: a unit vector has length
/// (about) `DIR_SCALE`.
pub const DIR_SCALE: i64 = 1000;

/// Upper bound (inclusive) on a timer's duration, in milliseconds.
pub const DUR_LIMIT: i64 = 1_000_000_000;

/// Upper bound (inclusive) on a collider half-extent, in milli-units.
pub const COLLIDER_LIMIT: i64 = 1_000_000_000;

/// Player movement speed, milli-units per second.
pub const PLAYER_SPEED: i64 = 200_000;

/// Player starting (and maximum) health.
pub const PLAYER_HEALTH: i64 = 10;

/// Player collider half-extent (both axes): a 50 by 50 box.
pub const PLAYER_HALF: i64 = 25_000;

/// Cooldown between player shots, in milliseconds.
pub const RELOAD_MS: i64 = 500;

/// Enemy movement speed, milli-units per second.
pub const ENEMY_SPEED: i64 = 150_000;

/// Enemy starting (and maximum) health.
pub const ENEMY_HEALTH: i64 = 5;

/// Enemy collider half-extent (both axes): a 50 by 50 box.
pub const ENEMY_HALF: i64 = 25_000;

/// Projectile speed, milli-units per second.
pub const PROJECTILE_SPEED: i64 = 400_000;

/// Projectile collider half-extent (both axes): a 10 by 10 box.
pub const PROJECTILE_HALF: i64 = 5_000;

/// Beyond this distance from the player an enemy approaches, milli-units.
pub const APPROACH_RANGE: i64 = 250_000;

/// Damage dealt by one projectile hit.
pub const DAMAGE_AMOUNT: i64 = 1;

/// Full width of an enemy health bar, milli-units.
pub const BAR_WIDTH: i64 = 60_000;

/// Vertical offset of a health bar above its enemy, milli-units.
pub const BAR_OFFSET_Y: i64 = 40_000;

/// Bounds (inclusive) of the sidestep re-roll interval, milliseconds.
pub const SIDESTEP_MIN_MS: i64 = 850;

pub const SIDESTEP_MAX_MS: i64 = 1150;

/// A sidestep re-roll draws a value below this scale.
pub const REROLL_SCALE: i64 = 10_000;

/// Draws below this quarter of the scale strafe left.
pub const REROLL_LEFT_BELOW: i64 = 2_500;

/// Draws from the second quarter of the scale strafe right; the rest
/// hold position.
pub const REROLL_RIGHT_BELOW: i64 = 5_000;

/// Upper bound (inclusive) on maximum health.
pub const HEALTH_LIMIT: i64 = 1_000_000_000;

/// Number of enemies of the initial population.
pub const ENEMY_COUNT: usize = 5;

/// Half-range of initial enemy spawn coordinates, world units.
pub const SPAWN_X_RANGE: i64 = 400;

pub const SPAWN_Y_RANGE: i64 = 200;

/// Clamp a coordinate into the simulation bounds.
pub open spec fn spec_clamp_coord(v: int) -> int {
    if v < -POS_LIMIT {
        -POS_LIMIT as int
    } else if v > POS_LIMIT {
        POS_LIMIT as int
    } else {
        v
    }
}

/// Clamp a coordinate into `[-POS_LIMIT, POS_LIMIT]`.
pub fn clamp_coord(v: i64) -> (r: i64)
    ensures
        r == spec_clamp_coord(v as int),
{
    if v < -POS_LIMIT {
        -POS_LIMIT
    } else if v > POS_LIMIT {
        POS_LIMIT
    } else {
        v
    }
}

} // verus!
