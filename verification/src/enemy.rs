//! The enemy stages: spawning the initial population, the per-tick
//! sidestep state machine with approach movement, and the health-bar
//! dependents that display an enemy's health.

use vstd::prelude::*;
use crate::components::EntityRec;
use crate::components::Role;
use crate::components::SidestepMode;
use crate::components::SimError;
use crate::components::is_live;
use crate::geometry::Vec2I;
use crate::geometry::apply_disp;
use crate::geometry::coord_in_bounds;
use crate::geometry::normalize;
use crate::geometry::spec_len;
use crate::geometry::spec_moved_pos;
use crate::geometry::spec_norm_x;
use crate::geometry::spec_norm_y;
use crate::geometry::vec_len;
use crate::rng::sample_range;
use crate::timer::spec_tick;
use crate::world::World;
use crate::world::bar_rec;
use crate::world::enemy_rec;
use crate::world::player_index;
use crate::world::spawn_enemy_at;
use crate::APPROACH_RANGE;
use crate::BAR_WIDTH;
use crate::DT_LIMIT;
use crate::ENEMY_COUNT;
use crate::HEALTH_LIMIT;
use crate::REROLL_LEFT_BELOW;
use crate::REROLL_RIGHT_BELOW;
use crate::REROLL_SCALE;
use crate::SIDESTEP_MAX_MS;
use crate::SIDESTEP_MIN_MS;
use crate::SPAWN_X_RANGE;
use crate::SPAWN_Y_RANGE;

verus! {

/// The sidestep state a re-roll draw selects: the first quarter of the
/// scale strafes left, the second right, the upper half holds.
pub open spec fn spec_reroll(r: int) -> SidestepMode {
    if r < REROLL_LEFT_BELOW {
        SidestepMode::Left
    } else if r < REROLL_RIGHT_BELOW {
        SidestepMode::Right
    } else {
        SidestepMode::Stationary
    }
}

/// Decide the next sidestep state from a uniform draw below
/// `REROLL_SCALE`.
pub fn reroll_sidestep(r: i64) -> (m: SidestepMode)
    requires
        0 <= r < REROLL_SCALE,
    ensures
        m == spec_reroll(r as int),
{
    if r < REROLL_LEFT_BELOW {
        SidestepMode::Left
    } else if r < REROLL_RIGHT_BELOW {
        SidestepMode::Right
    } else {
        SidestepMode::Stationary
    }
}

/// Where one tick of the sidestep state machine moves an enemy:
/// strafe perpendicular to the player by the current mode, and
/// approach when farther than `APPROACH_RANGE`; both are additive. An
/// enemy exactly on the player does not move at all (the degenerate
/// normalization is skipped).
pub open spec fn spec_enemy_moved_pos(e: EntityRec, ppos: Vec2I, dt: int) -> Vec2I {
    let v = Vec2I { x: (ppos.x - e.pos.x) as i64, y: (ppos.y - e.pos.y) as i64 };
    if v.x == 0 && v.y == 0 {
        e.pos
    } else {
        let dir = Vec2I { x: spec_norm_x(v) as i64, y: spec_norm_y(v) as i64 };
        let mode = e.sidestep_mode->Some_0;
        let p1 = if mode == SidestepMode::Left {
            spec_moved_pos(e.pos, Vec2I { x: (-dir.y) as i64, y: dir.x }, e.speed as int, dt)
        } else if mode == SidestepMode::Right {
            spec_moved_pos(e.pos, Vec2I { x: dir.y, y: (-dir.x) as i64 }, e.speed as int, dt)
        } else {
            e.pos
        };
        if spec_len(v) > APPROACH_RANGE {
            spec_moved_pos(p1, dir, e.speed as int, dt)
        } else {
            p1
        }
    }
}

/// How one tick of the enemy stage relates an enemy's record to its
/// previous state: position moved by the old mode, timer ticked, and
/// the mode re-rolled from some draw exactly when the timer had
/// finished. Every other component is untouched.
pub open spec fn enemy_advanced(pre: EntityRec, post: EntityRec, ppos: Vec2I, dt: int) -> bool {
    &&& post.pos == spec_enemy_moved_pos(pre, ppos, dt)
    &&& post.sidestep_timer == Some(spec_tick(pre.sidestep_timer->Some_0, dt))
    &&& (pre.sidestep_timer->Some_0.finished ==> exists|r: int|
        0 <= r < REROLL_SCALE && post.sidestep_mode == Some(#[trigger] spec_reroll(r)))
    &&& (!pre.sidestep_timer->Some_0.finished ==> post.sidestep_mode == pre.sidestep_mode)
    &&& post.alive == pre.alive
    &&& post.role == pre.role
    &&& post.speed == pre.speed
    &&& post.collider == pre.collider
    &&& post.health == pre.health
    &&& post.projectile == pre.projectile
    &&& post.reload == pre.reload
    &&& post.parent == pre.parent
    &&& post.bar_width == pre.bar_width
}

/// One tick of every enemy's movement and sidestep state machine,
/// against the position of the first live player. Fails, changing
/// nothing, exactly when no live player exists.
#[verifier::rlimit(50)]
pub fn move_enemies(w: &mut World, dt: i64) -> (r: Result<(), SimError>)
    requires
        old(w).wf(),
        0 <= dt < DT_LIMIT,
    ensures
        final(w).wf(),
        final(w).ents.len() == old(w).ents.len(),
        final(w).events@ == old(w).events@,
        r matches Err(e) ==> e == SimError::NoPlayer && !old(w).has_player() && *final(w) == *old(
            w,
        ),
        r is Ok ==> old(w).has_player(),
        r is Ok ==> exists|p: int|
            {
                &&& 0 <= p < old(w).ents.len()
                &&& is_live(#[trigger] old(w).ents[p], Role::Player)
                &&& forall|j: int| 0 <= j < p ==> !is_live(#[trigger] old(w).ents[j], Role::Player)
                &&& forall|j: int|
                    0 <= j < old(w).ents.len() ==> (if is_live(
                        #[trigger] old(w).ents[j],
                        Role::Enemy,
                    ) {
                        enemy_advanced(old(w).ents[j], final(w).ents[j], old(w).ents[p].pos, dt as int)
                    } else {
                        final(w).ents[j] == old(w).ents[j]
                    })
            },
{
    let pi = match player_index(w) {
        Some(i) => i,
        None => {
            return Err(SimError::NoPlayer);
        },
    };
    let ppos = w.ents[pi].pos;
    let n = w.ents.len();
    let mut i: usize = 0;
    while i < n
        invariant
            i <= n == w.ents.len() == old(w).ents.len(),
            0 <= dt < DT_LIMIT,
            pi < n,
            is_live(old(w).ents[pi as int], Role::Player),
            forall|j: int| 0 <= j < pi ==> !is_live(#[trigger] old(w).ents[j], Role::Player),
            ppos == old(w).ents[pi as int].pos,
            crate::geometry::pos_in_bounds(ppos),
            w.wf(),
            w.events@ == old(w).events@,
            forall|j: int|
                0 <= j < i ==> (if is_live(#[trigger] old(w).ents[j], Role::Enemy) {
                    enemy_advanced(old(w).ents[j], w.ents[j], ppos, dt as int)
                } else {
                    w.ents[j] == old(w).ents[j]
                }),
            forall|j: int| i <= j < n ==> #[trigger] w.ents[j] == old(w).ents[j],
        decreases n - i,
    {
        let e = w.ents[i];
        if e.alive && matches!(e.role, Role::Enemy) {
            let v = Vec2I { x: ppos.x - e.pos.x, y: ppos.y - e.pos.y };
            let mut newpos = e.pos;
            match normalize(v) {
                None => {},
                Some(dir) => {
                    let mode = e.sidestep_mode.unwrap();
                    if matches!(mode, SidestepMode::Left) {
                        newpos = apply_disp(newpos, Vec2I { x: -dir.y, y: dir.x }, e.speed, dt);
                    } else if matches!(mode, SidestepMode::Right) {
                        newpos = apply_disp(newpos, Vec2I { x: dir.y, y: -dir.x }, e.speed, dt);
                    }
                    let dist = vec_len(v);
                    if dist > APPROACH_RANGE {
                        newpos = apply_disp(newpos, dir, e.speed, dt);
                    }
                },
            }
            let mut t = e.sidestep_timer.unwrap();
            let mut mode2 = e.sidestep_mode.unwrap();
            if t.finished() {
                let draw = sample_range(0, REROLL_SCALE);
                mode2 = reroll_sidestep(draw);
                proof {
                    assert(0 <= draw < REROLL_SCALE && Some(mode2) == Some(
                        spec_reroll(draw as int),
                    ));
                }
            }
            t.tick(dt);
            let mut e2 = e;
            e2.pos = newpos;
            e2.sidestep_timer = Some(t);
            e2.sidestep_mode = Some(mode2);
            proof {
                assert(newpos == spec_enemy_moved_pos(e, ppos, dt as int));
                assert(enemy_advanced(e, e2, ppos, dt as int));
            }
            w.ents[i] = e2;
        }
        i += 1;
    }
    Ok(())
}

/// Create one enemy at the given milli-unit coordinates, with a
/// sidestep re-roll interval drawn from
/// `[SIDESTEP_MIN_MS, SIDESTEP_MAX_MS]`; returns its index.
pub fn spawn_enemy(w: &mut World, x: i64, y: i64) -> (idx: usize)
    requires
        old(w).wf(),
        coord_in_bounds(x as int),
        coord_in_bounds(y as int),
    ensures
        final(w).wf(),
        idx == old(w).ents.len(),
        final(w).events@ == old(w).events@,
        exists|ms: i64|
            #![auto]
            SIDESTEP_MIN_MS <= ms <= SIDESTEP_MAX_MS && final(w).ents@ == old(w).ents@.push(
                enemy_rec(Vec2I { x, y }, ms),
            ).push(bar_rec(idx, Role::HealthBarBackground)).push(bar_rec(idx, Role::HealthBar)),
{
    let ms = sample_range(SIDESTEP_MIN_MS, SIDESTEP_MAX_MS + 1);
    spawn_enemy_at(w, Vec2I { x, y }, ms)
}

/// The `k`-th group of three slots after `n0` holds a freshly spawned
/// enemy — its position inside the initial spawn box, its re-roll
/// interval inside the jitter range — and its two health-indicator
/// dependents.
pub open spec fn spawned_enemy_group(s: Seq<EntityRec>, n0: int, k: int) -> bool {
    let base = n0 + 3 * k;
    exists|pos: Vec2I, ms: i64|
        #![auto]
        {
            &&& -SPAWN_X_RANGE * 1000 <= pos.x < SPAWN_X_RANGE * 1000
            &&& -SPAWN_Y_RANGE * 1000 <= pos.y < SPAWN_Y_RANGE * 1000
            &&& SIDESTEP_MIN_MS <= ms <= SIDESTEP_MAX_MS
            &&& s[base] == enemy_rec(pos, ms)
            &&& s[base + 1] == bar_rec(base as usize, Role::HealthBarBackground)
            &&& s[base + 2] == bar_rec(base as usize, Role::HealthBar)
        }
}

/// Create the initial enemy population: `ENEMY_COUNT` enemies at
/// positions drawn uniformly from the spawn box.
pub fn spawn_enemies(w: &mut World)
    requires
        old(w).wf(),
    ensures
        final(w).wf(),
        final(w).ents.len() == old(w).ents.len() + 3 * ENEMY_COUNT,
        final(w).events@ == old(w).events@,
        forall|j: int| 0 <= j < old(w).ents.len() ==> final(w).ents[j] == old(w).ents[j],
        forall|k: int|
            0 <= k < ENEMY_COUNT ==> #[trigger] spawned_enemy_group(
                final(w).ents@,
                old(w).ents.len() as int,
                k,
            ),
{
    let mut k: usize = 0;
    while k < ENEMY_COUNT
        invariant
            k <= ENEMY_COUNT,
            w.ents.len() == old(w).ents.len() + 3 * k,
            w.wf(),
            w.events@ == old(w).events@,
            forall|j: int| 0 <= j < old(w).ents.len() ==> w.ents[j] == old(w).ents[j],
            forall|kk: int|
                0 <= kk < k ==> #[trigger] spawned_enemy_group(
                    w.ents@,
                    old(w).ents.len() as int,
                    kk,
                ),
        decreases ENEMY_COUNT - k,
    {
        let x = sample_range(-SPAWN_X_RANGE, SPAWN_X_RANGE) * 1000;
        let y = sample_range(-SPAWN_Y_RANGE, SPAWN_Y_RANGE) * 1000;
        let ghost pre = w.ents@;
        let ghost n0 = old(w).ents.len() as int;
        let idx = spawn_enemy(w, x, y);
        proof {
            let ms2 = choose|ms: i64|
                #![auto]
                SIDESTEP_MIN_MS <= ms <= SIDESTEP_MAX_MS && w.ents@ == pre.push(
                    enemy_rec(Vec2I { x, y }, ms),
                ).push(bar_rec(idx, Role::HealthBarBackground)).push(bar_rec(idx, Role::HealthBar));
            assert(w.ents@[n0 + 3 * (k as int)] == enemy_rec(Vec2I { x, y }, ms2));
            assert(spawned_enemy_group(w.ents@, n0, k as int));
            assert forall|kk: int| 0 <= kk < k implies #[trigger] spawned_enemy_group(
                w.ents@,
                n0,
                kk,
            ) by {
                assert(spawned_enemy_group(pre, n0, kk));
                let base = n0 + 3 * kk;
                let (pos, ms) = choose|pos: Vec2I, ms: i64|
                    #![auto]
                    {
                        &&& -SPAWN_X_RANGE * 1000 <= pos.x < SPAWN_X_RANGE * 1000
                        &&& -SPAWN_Y_RANGE * 1000 <= pos.y < SPAWN_Y_RANGE * 1000
                        &&& SIDESTEP_MIN_MS <= ms <= SIDESTEP_MAX_MS
                        &&& pre[base] == enemy_rec(pos, ms)
                        &&& pre[base + 1] == bar_rec(base as usize, Role::HealthBarBackground)
                        &&& pre[base + 2] == bar_rec(base as usize, Role::HealthBar)
                    };
                assert(w.ents@[base] == pre[base]);
                assert(w.ents@[base + 1] == pre[base + 1]);
                assert(w.ents@[base + 2] == pre[base + 2]);
                assert(w.ents@[base] == enemy_rec(pos, ms) && w.ents@[base + 1] == bar_rec(
                    base as usize,
                    Role::HealthBarBackground,
                ) && w.ents@[base + 2] == bar_rec(base as usize, Role::HealthBar));
            }
        }
        k += 1;
    }
}

/// The fill width of a health bar: the full width scaled by the
/// health fraction, and empty once health is gone.
pub open spec fn spec_bar_width(current: int, max: int) -> int {
    if current <= 0 {
        0
    } else {
        BAR_WIDTH * current / max
    }
}

/// The horizontal offset that keeps a partial bar left-aligned over
/// its owner: half of the missing width, to the left.
pub open spec fn spec_bar_offset(current: int, max: int) -> int {
    -((BAR_WIDTH - spec_bar_width(current, max)) / 2)
}

/// Compute a health bar's fill width and horizontal offset.
pub fn health_bar_geometry(current: i64, max: i64) -> (r: (i64, i64))
    requires
        current <= max,
        1 <= max <= HEALTH_LIMIT,
    ensures
        r.0 == spec_bar_width(current as int, max as int),
        r.1 == spec_bar_offset(current as int, max as int),
        0 <= r.0 <= BAR_WIDTH,
        -BAR_WIDTH <= r.1 <= 0,
{
    let width: i64 = if current <= 0 {
        0
    } else {
        assert(0 <= BAR_WIDTH * current <= BAR_WIDTH * max) by (nonlinear_arith)
            requires
                0 < current <= max,
                BAR_WIDTH == 60_000i64,
        ;
        let wu: u64 = ((BAR_WIDTH as u64) * (current as u64)) / (max as u64);
        assert((BAR_WIDTH as int) * (current as int) / (max as int) <= BAR_WIDTH)
            by (nonlinear_arith)
            requires
                0 < current <= max,
                BAR_WIDTH == 60_000i64,
        ;
        assert((BAR_WIDTH as int) * (current as int) / (max as int) >= 0) by (nonlinear_arith)
            requires
                0 < current,
                0 < max,
                BAR_WIDTH == 60_000i64,
        ;
        wu as i64
    };
    let off: i64 = -((((BAR_WIDTH - width) as u64) / 2) as i64);
    (width, off)
}

/// The record of a health bar refreshed from its owner's health.
pub open spec fn bar_updated(pre: EntityRec, owner: EntityRec) -> EntityRec {
    let h = owner.health->Some_0;
    EntityRec {
        pos: Vec2I {
            x: spec_bar_offset(h.current as int, h.max as int) as i64,
            y: pre.pos.y,
        },
        bar_width: spec_bar_width(h.current as int, h.max as int) as i64,
        ..pre
    }
}

/// Whether a slot is a live health bar whose owner is a live enemy —
/// the condition under which the bar is refreshed.
pub open spec fn bar_refreshed(s: Seq<EntityRec>, j: int) -> bool {
    &&& is_live(s[j], Role::HealthBar)
    &&& is_live(s[s[j].parent->Some_0 as int], Role::Enemy)
}

/// Refresh every live health bar from its owner enemy's health: the
/// fill width tracks the health fraction and the bar stays centered
/// over the remaining fraction. Bars of dead or missing owners are
/// left alone.
#[verifier::rlimit(50)]
pub fn update_health_bars(w: &mut World)
    requires
        old(w).wf(),
    ensures
        final(w).wf(),
        final(w).ents.len() == old(w).ents.len(),
        final(w).events@ == old(w).events@,
        forall|j: int|
            0 <= j < old(w).ents.len() ==> #[trigger] final(w).ents[j] == (if bar_refreshed(
                old(w).ents@,
                j,
            ) {
                bar_updated(old(w).ents[j], old(w).ents[old(w).ents[j].parent->Some_0 as int])
            } else {
                old(w).ents[j]
            }),
{
    let n = w.ents.len();
    let mut i: usize = 0;
    while i < n
        invariant
            i <= n == w.ents.len() == old(w).ents.len(),
            w.wf(),
            w.events@ == old(w).events@,
            forall|j: int|
                0 <= j < i ==> #[trigger] w.ents[j] == (if bar_refreshed(old(w).ents@, j) {
                    bar_updated(old(w).ents[j], old(w).ents[old(w).ents[j].parent->Some_0 as int])
                } else {
                    old(w).ents[j]
                }),
            forall|j: int| i <= j < n ==> #[trigger] w.ents[j] == old(w).ents[j],
        decreases n - i,
    {
        let e = w.ents[i];
        if e.alive && matches!(e.role, Role::HealthBar) {
            let p = e.parent.unwrap();
            let owner = w.ents[p];
            if owner.alive && matches!(owner.role, Role::Enemy) {
                proof {
                    assert(owner == old(w).ents[p as int]);
                }
                let h = owner.health.unwrap();
                let (width, off) = health_bar_geometry(h.current, h.max);
                let mut e2 = e;
                e2.pos = Vec2I { x: off, y: e.pos.y };
                e2.bar_width = width;
                proof {
                    assert(e2 == bar_updated(e, owner));
                }
                w.ents[i] = e2;
            }
        }
        i += 1;
    }
}

} // verus!
