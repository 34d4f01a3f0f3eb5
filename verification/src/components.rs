//! Components of a simulated entity, and the well-formedness
//! conditions each carries. All state of an entity lives here; the
//! entity itself is an index into the world's dense store.

use vstd::prelude::*;
use crate::geometry::Vec2I;
use crate::geometry::pos_in_bounds;
use crate::geometry::spec_abs;
use crate::timer::Timer;
use crate::timer::wf_timer;
use crate::BAR_WIDTH;
use crate::COLLIDER_LIMIT;
use crate::DIR_SCALE;
use crate::SPEED_LIMIT;

verus! {

/// What an entity is; decides which stages act on it.
#[derive(Clone, Copy, PartialEq, Eq, Structural, Debug)]
pub enum Role {
    Player,
    Enemy,
    Projectile,
    HealthBar,
    HealthBarBackground,
}

/// Current and maximum health. `current <= max` always; `current` may
/// transiently reach zero or below in the instant before destruction.
#[derive(Clone, Copy, PartialEq, Eq, Structural, Debug)]
pub struct Health {
    pub current: i64,
    pub max: i64,
}

pub open spec fn wf_health(h: Health) -> bool {
    &&& h.current <= h.max
    &&& 1 <= h.max <= crate::HEALTH_LIMIT
}

/// Axis-aligned half-extents; with a position they form an AABB.
#[derive(Clone, Copy, PartialEq, Eq, Structural, Debug)]
pub struct Collider {
    pub hx: i64,
    pub hy: i64,
}

pub open spec fn wf_collider(c: Collider) -> bool {
    &&& 0 < c.hx <= COLLIDER_LIMIT
    &&& 0 < c.hy <= COLLIDER_LIMIT
}

/// A projectile in flight: its normalized direction, the entity that
/// fired it, and whether it is friendly (fired by the player; may
/// damage enemies only) or not (may damage the player only).
#[derive(Clone, Copy, PartialEq, Eq, Structural, Debug)]
pub struct Projectile {
    pub direction: Vec2I,
    pub shot_by: usize,
    pub friendly: bool,
}

pub open spec fn wf_projectile(p: Projectile, n: int) -> bool {
    &&& spec_abs(p.direction.x as int) <= DIR_SCALE
    &&& spec_abs(p.direction.y as int) <= DIR_SCALE
    &&& p.shot_by < n
}

/// The sidestep state machine of an enemy: strafe lateral to the
/// player, or hold position.
#[derive(Clone, Copy, PartialEq, Eq, Structural, Debug)]
pub enum SidestepMode {
    Stationary,
    Left,
    Right,
}

/// A transient order to reduce an entity's health, produced by the
/// collision stage and consumed the same tick by the damage stage.
#[derive(Clone, Copy, PartialEq, Eq, Structural, Debug)]
pub struct DamageEvent {
    pub target: usize,
    pub amount: i64,
}

pub open spec fn wf_event(ev: DamageEvent, n: int) -> bool {
    &&& ev.target < n
    &&& 0 <= ev.amount
}

/// One entity of the world: a slot in the dense store. A dead slot
/// (`alive == false`) is never reused, so a stale index always names a
/// dead entity and never a different live one.
#[derive(Clone, Copy, PartialEq, Eq, Structural, Debug)]
pub struct EntityRec {
    pub alive: bool,
    pub role: Role,
    pub pos: Vec2I,
    pub speed: i64,
    pub collider: Option<Collider>,
    pub health: Option<Health>,
    pub projectile: Option<Projectile>,
    pub reload: Option<Timer>,
    pub sidestep_mode: Option<SidestepMode>,
    pub sidestep_timer: Option<Timer>,
    pub parent: Option<usize>,
    pub bar_width: i64,
}

/// Well-formed entity in a world of `n` slots: bounded state, and the
/// component bundle its role promises.
pub open spec fn wf_ent(e: EntityRec, n: int) -> bool {
    &&& pos_in_bounds(e.pos)
    &&& 0 <= e.speed <= SPEED_LIMIT
    &&& (e.collider matches Some(c) ==> wf_collider(c))
    &&& (e.health matches Some(h) ==> wf_health(h))
    &&& (e.projectile matches Some(p) ==> wf_projectile(p, n))
    &&& (e.reload matches Some(t) ==> wf_timer(t))
    &&& (e.sidestep_timer matches Some(t) ==> wf_timer(t))
    &&& (e.parent matches Some(p) ==> p < n)
    &&& 0 <= e.bar_width <= BAR_WIDTH
    &&& (e.role == Role::Projectile ==> e.projectile is Some && e.collider is Some)
    &&& (e.role == Role::Enemy ==> e.health is Some && e.collider is Some && e.sidestep_mode
        is Some && e.sidestep_timer is Some)
    &&& (e.role == Role::Player ==> e.health is Some && e.collider is Some && e.reload is Some)
    &&& (e.role == Role::HealthBar || e.role == Role::HealthBarBackground ==> e.parent is Some)
}

/// Live entity of a given role.
pub open spec fn is_live(e: EntityRec, role: Role) -> bool {
    e.alive && e.role == role
}

/// The same record, destroyed: only the liveness flag changes, so a
/// stale index still reads the entity it named.
pub open spec fn killed(e: EntityRec) -> EntityRec {
    EntityRec { alive: false, ..e }
}

/// A stage's failure: a missing required singleton is fatal for the
/// stage (it runs not at all rather than with an undefined position).
#[derive(Clone, Copy, PartialEq, Eq, Structural, Debug)]
pub enum SimError {
    NoPlayer,
}

} // verus!
