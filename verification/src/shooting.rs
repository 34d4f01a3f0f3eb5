//! The shooting stage: a cooldown-gated spawn of projectile entities.
//! The same primitive serves the player (friendly projectiles) and
//! enemies (non-friendly ones); firing is possible only when the
//! shooter's reload timer is finished, and the timer keeps advancing
//! while not firing, so the cooldown recovers.

use vstd::prelude::*;
use crate::components::Collider;
use crate::components::EntityRec;
use crate::components::Projectile;
use crate::components::Role;
use crate::components::SimError;
use crate::components::is_live;
use crate::geometry::Vec2I;
use crate::geometry::normalize;
use crate::geometry::pos_in_bounds;
use crate::geometry::spec_abs;
use crate::geometry::spec_norm_x;
use crate::geometry::spec_norm_y;
use crate::timer::spec_tick;
use crate::world::World;
use crate::DIR_SCALE;
use crate::DT_LIMIT;
use crate::PROJECTILE_HALF;
use crate::PROJECTILE_SPEED;

verus! {

/// The record of a projectile just fired from `pos` by `shooter`.
pub open spec fn projectile_rec(pos: Vec2I, dir: Vec2I, shooter: usize, friendly: bool) -> EntityRec {
    EntityRec {
        alive: true,
        role: Role::Projectile,
        pos,
        speed: PROJECTILE_SPEED,
        collider: Some(Collider { hx: PROJECTILE_HALF, hy: PROJECTILE_HALF }),
        health: None,
        projectile: Some(Projectile { direction: dir, shot_by: shooter, friendly }),
        reload: None,
        sidestep_mode: None,
        sidestep_timer: None,
        parent: None,
        bar_width: 0,
    }
}

/// The shooter with its reload timer advanced by `dt`.
pub open spec fn ticked_shooter(e: EntityRec, dt: int) -> EntityRec {
    EntityRec { reload: Some(spec_tick(e.reload->Some_0, dt)), ..e }
}

/// The gated-spawn primitive: when the shooter's reload timer is
/// finished, spawn a projectile at the shooter's position with the
/// given direction — friendly exactly when the shooter is the player —
/// and in every case advance the timer by delta-time.
pub fn shoot(w: &mut World, shooter: usize, direction: Vec2I, dt: i64)
    requires
        old(w).wf(),
        shooter < old(w).ents.len(),
        old(w).ents[shooter as int].reload is Some,
        spec_abs(direction.x as int) <= DIR_SCALE,
        spec_abs(direction.y as int) <= DIR_SCALE,
        0 <= dt < DT_LIMIT,
    ensures
        final(w).wf(),
        final(w).events@ == old(w).events@,
        ({
            let e = old(w).ents[shooter as int];
            let ticked = old(w).ents@.update(shooter as int, ticked_shooter(e, dt as int));
            if e.reload->Some_0.finished {
                final(w).ents@ == ticked.push(
                    projectile_rec(e.pos, direction, shooter, e.role == Role::Player),
                )
            } else {
                final(w).ents@ == ticked
            }
        }),
{
    let e = w.ents[shooter];
    let mut t = e.reload.unwrap();
    let fire = t.finished();
    t.tick(dt);
    let mut e2 = e;
    e2.reload = Some(t);
    proof {
        assert(e2 == ticked_shooter(e, dt as int));
    }
    w.ents[shooter] = e2;
    if fire {
        let friendly = matches!(e.role, Role::Player);
        let n = w.ents.len();
        let rec = EntityRec {
            alive: true,
            role: Role::Projectile,
            pos: e.pos,
            speed: PROJECTILE_SPEED,
            collider: Some(Collider { hx: PROJECTILE_HALF, hy: PROJECTILE_HALF }),
            health: None,
            projectile: Some(Projectile { direction, shot_by: shooter, friendly }),
            reload: None,
            sidestep_mode: None,
            sidestep_timer: None,
            parent: None,
            bar_width: 0,
        };
        w.ents.push(rec);
        proof {
            assert(rec == projectile_rec(e.pos, direction, shooter, e.role == Role::Player));
        }
    }
}

/// The direction from the player's position to the target point,
/// normalized; only meaningful when they differ.
pub open spec fn fired_dir(ppos: Vec2I, target: Vec2I) -> Vec2I {
    let v = Vec2I { x: (target.x - ppos.x) as i64, y: (target.y - ppos.y) as i64 };
    Vec2I { x: spec_norm_x(v) as i64, y: spec_norm_y(v) as i64 }
}

/// Player shooting, one tick: with the reload timer finished, a fire
/// intent and a resolvable target point distinct from the player's own
/// position spawn one friendly projectile toward the target and
/// advance the timer; with the timer finished but no such shot the
/// charge is held unchanged; with the timer not finished it advances
/// by delta-time, recovering the cooldown. Fails, changing nothing,
/// exactly when no live player exists.
#[verifier::rlimit(50)]
pub fn handle_shooting(w: &mut World, fire: bool, target: Option<Vec2I>, dt: i64) -> (r: Result<
    (),
    SimError,
>)
    requires
        old(w).wf(),
        target matches Some(t) ==> pos_in_bounds(t),
        0 <= dt < DT_LIMIT,
    ensures
        final(w).wf(),
        final(w).events@ == old(w).events@,
        r matches Err(e) ==> e == SimError::NoPlayer && !old(w).has_player() && *final(w) == *old(
            w,
        ),
        r is Ok ==> old(w).has_player(),
        r is Ok ==> exists|i: int|
            {
                &&& 0 <= i < old(w).ents.len()
                &&& is_live(#[trigger] old(w).ents[i], Role::Player)
                &&& forall|j: int| 0 <= j < i ==> !is_live(#[trigger] old(w).ents[j], Role::Player)
                &&& ({
                    let e = old(w).ents[i];
                    let t = e.reload->Some_0;
                    if t.finished {
                        if fire && target is Some && target->Some_0 != e.pos {
                            final(w).ents@ == old(w).ents@.update(
                                i,
                                ticked_shooter(e, dt as int),
                            ).push(
                                projectile_rec(
                                    e.pos,
                                    fired_dir(e.pos, target->Some_0),
                                    i as usize,
                                    true,
                                ),
                            )
                        } else {
                            final(w).ents@ == old(w).ents@
                        }
                    } else {
                        final(w).ents@ == old(w).ents@.update(i, ticked_shooter(e, dt as int))
                    }
                })
            },
{
    let pi = match crate::world::player_index(w) {
        Some(i) => i,
        None => {
            return Err(SimError::NoPlayer);
        },
    };
    let e = w.ents[pi];
    let mut t = e.reload.unwrap();
    if t.finished() {
        if !fire {
            return Ok(());
        }
        let tp = match target {
            Some(tp) => tp,
            None => {
                return Ok(());
            },
        };
        let v = Vec2I { x: tp.x - e.pos.x, y: tp.y - e.pos.y };
        match normalize(v) {
            None => {
                proof {
                    assert(tp == e.pos);
                }
                return Ok(());
            },
            Some(d) => {
                proof {
                    assert(d == fired_dir(e.pos, tp));
                }
                shoot(w, pi, d, dt);
            },
        }
    } else {
        t.tick(dt);
        let mut e2 = e;
        e2.reload = Some(t);
        proof {
            assert(e2 == ticked_shooter(e, dt as int));
        }
        w.ents[pi] = e2;
    }
    Ok(())
}

} // verus!
