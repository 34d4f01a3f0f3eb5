//! The entity store: a dense vector of entity slots plus the tick's
//! damage event queue. Slots of destroyed entities stay in place,
//! marked dead, so indices held across a despawn keep naming the same
//! (now dead) entity.

use vstd::prelude::*;
use crate::components::DamageEvent;
use crate::components::EntityRec;
use crate::components::Health;
use crate::components::Role;
use crate::components::wf_ent;
use crate::components::wf_event;
use crate::components::is_live;
use crate::geometry::Vec2I;
use crate::geometry::pos_in_bounds;
use crate::timer::Timer;
use crate::DUR_LIMIT;
use crate::ENEMY_HALF;
use crate::ENEMY_HEALTH;
use crate::ENEMY_SPEED;
use crate::BAR_OFFSET_Y;
use crate::BAR_WIDTH;
use crate::PLAYER_HALF;
use crate::PLAYER_HEALTH;
use crate::PLAYER_SPEED;
use crate::RELOAD_MS;
use crate::components::Collider;
use crate::components::SidestepMode;

verus! {

pub struct World {
    pub ents: Vec<EntityRec>,
    pub events: Vec<DamageEvent>,
}

impl World {
    /// Every entity and every queued event is well-formed for the
    /// store's size.
    pub open spec fn wf(self) -> bool {
        &&& forall|i: int|
            0 <= i < self.ents.len() ==> wf_ent(
                #[trigger] self.ents[i],
                self.ents.len() as int,
            )
        &&& forall|i: int|
            0 <= i < self.events.len() ==> wf_event(
                #[trigger] self.events[i],
                self.ents.len() as int,
            )
    }

    /// Some live player entity exists.
    pub open spec fn has_player(self) -> bool {
        exists|i: int| 0 <= i < self.ents.len() && is_live(#[trigger] self.ents[i], Role::Player)
    }

    /// An empty world: no entities, no pending events.
    pub fn new() -> (w: World)
        ensures
            w.ents@.len() == 0,
            w.events@.len() == 0,
            w.wf(),
    {
        World { ents: Vec::new(), events: Vec::new() }
    }
}

/// The index of the first live player, scanning in slot order; `None`
/// exactly when no live player exists.
pub fn player_index(w: &World) -> (r: Option<usize>)
    ensures
        r matches Some(i) ==> i < w.ents.len() && is_live(w.ents[i as int], Role::Player)
            && forall|j: int| 0 <= j < i ==> !is_live(#[trigger] w.ents[j], Role::Player),
        r is None <==> !w.has_player(),
{
    let n = w.ents.len();
    let mut i: usize = 0;
    while i < n
        invariant
            i <= n == w.ents.len(),
            forall|j: int| 0 <= j < i ==> !is_live(#[trigger] w.ents[j], Role::Player),
        decreases n - i,
    {
        let e = &w.ents[i];
        if e.alive && matches!(e.role, Role::Player) {
            return Some(i);
        }
        i += 1;
    }
    None
}

/// The record a fresh player entity carries: at the origin, full
/// health, a repeating reload timer not yet charged.
pub open spec fn player_rec() -> EntityRec {
    EntityRec {
        alive: true,
        role: Role::Player,
        pos: Vec2I { x: 0, y: 0 },
        speed: PLAYER_SPEED,
        collider: Some(Collider { hx: PLAYER_HALF, hy: PLAYER_HALF }),
        health: Some(Health { current: PLAYER_HEALTH, max: PLAYER_HEALTH }),
        projectile: None,
        reload: Some(Timer { duration: RELOAD_MS, elapsed: 0, repeating: true, finished: false }),
        sidestep_mode: None,
        sidestep_timer: None,
        parent: None,
        bar_width: 0,
    }
}

/// Create the player entity; returns its index.
pub fn spawn_player(w: &mut World) -> (idx: usize)
    requires
        old(w).wf(),
    ensures
        final(w).wf(),
        idx == old(w).ents.len(),
        final(w).ents@ == old(w).ents@.push(player_rec()),
        final(w).events@ == old(w).events@,
        final(w).has_player(),
{
    let idx = w.ents.len();
    let rec = EntityRec {
        alive: true,
        role: Role::Player,
        pos: Vec2I { x: 0, y: 0 },
        speed: PLAYER_SPEED,
        collider: Some(Collider { hx: PLAYER_HALF, hy: PLAYER_HALF }),
        health: Some(Health { current: PLAYER_HEALTH, max: PLAYER_HEALTH }),
        projectile: None,
        reload: Some(Timer::new(RELOAD_MS, true)),
        sidestep_mode: None,
        sidestep_timer: None,
        parent: None,
        bar_width: 0,
    };
    w.ents.push(rec);
    proof {
        assert(final(w).ents[idx as int] == player_rec());
        assert(is_live(final(w).ents[idx as int], Role::Player));
    }
    idx
}

/// The record a fresh enemy carries at `pos`, with the given sidestep
/// re-roll interval.
pub open spec fn enemy_rec(pos: Vec2I, reroll_ms: i64) -> EntityRec {
    EntityRec {
        alive: true,
        role: Role::Enemy,
        pos,
        speed: ENEMY_SPEED,
        collider: Some(Collider { hx: ENEMY_HALF, hy: ENEMY_HALF }),
        health: Some(Health { current: ENEMY_HEALTH, max: ENEMY_HEALTH }),
        projectile: None,
        reload: None,
        sidestep_mode: Some(SidestepMode::Stationary),
        sidestep_timer: Some(
            Timer { duration: reroll_ms, elapsed: 0, repeating: true, finished: false },
        ),
        parent: None,
        bar_width: 0,
    }
}

/// A health-indicator dependent of the enemy at `owner`: its position
/// is an offset relative to its parent. The background keeps the full
/// width; the foreground's width tracks the owner's health.
pub open spec fn bar_rec(owner: usize, role: Role) -> EntityRec {
    EntityRec {
        alive: true,
        role,
        pos: Vec2I { x: 0, y: BAR_OFFSET_Y },
        speed: 0,
        collider: None,
        health: None,
        projectile: None,
        reload: None,
        sidestep_mode: None,
        sidestep_timer: None,
        parent: Some(owner),
        bar_width: BAR_WIDTH,
    }
}

/// Create one enemy at `pos` with the given re-roll interval, together
/// with its two health-indicator dependents; returns the enemy's index.
pub fn spawn_enemy_at(w: &mut World, pos: Vec2I, reroll_ms: i64) -> (idx: usize)
    requires
        old(w).wf(),
        pos_in_bounds(pos),
        1 <= reroll_ms <= DUR_LIMIT,
    ensures
        final(w).wf(),
        idx == old(w).ents.len(),
        final(w).ents@ == old(w).ents@.push(enemy_rec(pos, reroll_ms)).push(
            bar_rec(idx, Role::HealthBarBackground),
        ).push(bar_rec(idx, Role::HealthBar)),
        final(w).events@ == old(w).events@,
{
    let idx = w.ents.len();
    let rec = EntityRec {
        alive: true,
        role: Role::Enemy,
        pos,
        speed: ENEMY_SPEED,
        collider: Some(Collider { hx: ENEMY_HALF, hy: ENEMY_HALF }),
        health: Some(Health { current: ENEMY_HEALTH, max: ENEMY_HEALTH }),
        projectile: None,
        reload: None,
        sidestep_mode: Some(SidestepMode::Stationary),
        sidestep_timer: Some(Timer::new(reroll_ms, true)),
        parent: None,
        bar_width: 0,
    };
    w.ents.push(rec);
    let bg = EntityRec {
        alive: true,
        role: Role::HealthBarBackground,
        pos: Vec2I { x: 0, y: BAR_OFFSET_Y },
        speed: 0,
        collider: None,
        health: None,
        projectile: None,
        reload: None,
        sidestep_mode: None,
        sidestep_timer: None,
        parent: Some(idx),
        bar_width: BAR_WIDTH,
    };
    w.ents.push(bg);
    let bar = EntityRec {
        alive: true,
        role: Role::HealthBar,
        pos: Vec2I { x: 0, y: BAR_OFFSET_Y },
        speed: 0,
        collider: None,
        health: None,
        projectile: None,
        reload: None,
        sidestep_mode: None,
        sidestep_timer: None,
        parent: Some(idx),
        bar_width: BAR_WIDTH,
    };
    w.ents.push(bar);
    idx
}

} // verus!
