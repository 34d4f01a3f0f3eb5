//! The movement stage: projectiles drift along their fixed direction,
//! the player moves by resolved input intent. Each displacement is
//! `direction x speed x delta-time`, with a zero direction leaving the
//! position unchanged.

use vstd::prelude::*;
use crate::components::EntityRec;
use crate::components::Role;
use crate::components::SimError;
use crate::components::is_live;
use crate::geometry::Vec2I;
use crate::geometry::apply_disp;
use crate::geometry::normalize;
use crate::geometry::spec_moved_coord;
use crate::geometry::spec_norm_x;
use crate::geometry::spec_norm_y;
use crate::world::World;
use crate::DIR_SCALE;
use crate::DT_LIMIT;

verus! {

/// The record of a projectile after one tick of drift.
pub open spec fn moved_projectile(e: EntityRec, dt: int) -> EntityRec {
    let d = e.projectile->Some_0.direction;
    EntityRec {
        pos: Vec2I {
            x: spec_moved_coord(e.pos.x as int, d.x as int, e.speed as int, dt) as i64,
            y: spec_moved_coord(e.pos.y as int, d.y as int, e.speed as int, dt) as i64,
        },
        ..e
    }
}

/// Advance every live projectile by its direction, speed and
/// delta-time; nothing else changes.
pub fn move_projectiles(w: &mut World, dt: i64)
    requires
        old(w).wf(),
        0 <= dt < DT_LIMIT,
    ensures
        final(w).wf(),
        final(w).ents.len() == old(w).ents.len(),
        final(w).events@ == old(w).events@,
        forall|j: int|
            0 <= j < old(w).ents.len() ==> #[trigger] final(w).ents[j] == (if is_live(
                old(w).ents[j],
                Role::Projectile,
            ) {
                moved_projectile(old(w).ents[j], dt as int)
            } else {
                old(w).ents[j]
            }),
{
    let n = w.ents.len();
    let mut i: usize = 0;
    while i < n
        invariant
            i <= n == w.ents.len() == old(w).ents.len(),
            0 <= dt < DT_LIMIT,
            w.wf(),
            w.events@ == old(w).events@,
            forall|j: int|
                0 <= j < i ==> #[trigger] w.ents[j] == (if is_live(
                    old(w).ents[j],
                    Role::Projectile,
                ) {
                    moved_projectile(old(w).ents[j], dt as int)
                } else {
                    old(w).ents[j]
                }),
            forall|j: int| i <= j < n ==> #[trigger] w.ents[j] == old(w).ents[j],
        decreases n - i,
    {
        let e = w.ents[i];
        if e.alive && matches!(e.role, Role::Projectile) {
            let p = e.projectile.unwrap();
            let newpos = apply_disp(e.pos, p.direction, e.speed, dt);
            let mut e2 = e;
            e2.pos = newpos;
            w.ents[i] = e2;
        }
        i += 1;
    }
}

/// Resolved movement intent of the player: four direction flags.
#[derive(Clone, Copy, PartialEq, Eq, Structural, Debug)]
pub struct DirInput {
    pub up: bool,
    pub down: bool,
    pub left: bool,
    pub right: bool,
}

/// The intent vector the flags combine to, in milli-units: opposite
/// flags cancel.
pub open spec fn spec_input_vec(inp: DirInput) -> Vec2I {
    Vec2I {
        x: (((if inp.right {
            1int
        } else {
            0int
        }) - (if inp.left {
            1int
        } else {
            0int
        })) * DIR_SCALE) as i64,
        y: (((if inp.up {
            1int
        } else {
            0int
        }) - (if inp.down {
            1int
        } else {
            0int
        })) * DIR_SCALE) as i64,
    }
}

/// The player's position after one tick of the given intent: the
/// intent vector normalized, then applied; a zero intent leaves the
/// position unchanged.
pub open spec fn moved_player(e: EntityRec, inp: DirInput, dt: int) -> EntityRec {
    let v = spec_input_vec(inp);
    if v.x == 0 && v.y == 0 {
        e
    } else {
        EntityRec {
            pos: Vec2I {
                x: spec_moved_coord(e.pos.x as int, spec_norm_x(v), e.speed as int, dt) as i64,
                y: spec_moved_coord(e.pos.y as int, spec_norm_y(v), e.speed as int, dt) as i64,
            },
            ..e
        }
    }
}

/// Move the player by the tick's input intent. Fails, changing
/// nothing, exactly when no live player exists.
#[verifier::rlimit(50)]
pub fn move_player(w: &mut World, inp: DirInput, dt: i64) -> (r: Result<(), SimError>)
    requires
        old(w).wf(),
        0 <= dt < DT_LIMIT,
    ensures
        final(w).wf(),
        r matches Err(e) ==> e == SimError::NoPlayer && !old(w).has_player() && *final(w) == *old(
            w,
        ),
        r is Ok ==> old(w).has_player(),
        r is Ok ==> exists|i: int|
            {
                &&& 0 <= i < old(w).ents.len()
                &&& is_live(#[trigger] old(w).ents[i], Role::Player)
                &&& forall|j: int| 0 <= j < i ==> !is_live(#[trigger] old(w).ents[j], Role::Player)
                &&& final(w).ents@ == old(w).ents@.update(
                    i,
                    moved_player(old(w).ents[i], inp, dt as int),
                )
            },
        final(w).events@ == old(w).events@,
{
    let pi = match crate::world::player_index(w) {
        Some(i) => i,
        None => {
            return Err(SimError::NoPlayer);
        },
    };
    let e = w.ents[pi];
    let dx: i64 = (if inp.right {
        1i64
    } else {
        0i64
    }) - (if inp.left {
        1i64
    } else {
        0i64
    });
    let dy: i64 = (if inp.up {
        1i64
    } else {
        0i64
    }) - (if inp.down {
        1i64
    } else {
        0i64
    });
    let v = Vec2I { x: dx * DIR_SCALE, y: dy * DIR_SCALE };
    proof {
        assert(v == spec_input_vec(inp));
    }
    match normalize(v) {
        None => {
            proof {
                assert(moved_player(e, inp, dt as int) == e);
                assert(w.ents@ =~= w.ents@.update(pi as int, e));
            }
        },
        Some(d) => {
            let newpos = apply_disp(e.pos, d, e.speed, dt);
            let mut e2 = e;
            e2.pos = newpos;
            proof {
                assert(e2 == moved_player(e, inp, dt as int));
            }
            w.ents[pi] = e2;
        },
    }
    Ok(())
}

} // verus!
