//! The collision stage: axis-aligned overlap tests between
//! projectiles and their eligible targets — friendly projectiles may
//! hit enemies only, non-friendly ones the player only, and never the
//! shooter itself — and the soft separation of overlapping enemy
//! pairs. Projectile hits emit damage events; the first qualifying
//! overlap in slot order wins and destroys the projectile at once.

use vstd::prelude::*;
use crate::components::Collider;
use crate::components::DamageEvent;
use crate::components::EntityRec;
use crate::components::Role;
use crate::components::is_live;
use crate::components::killed;
use crate::geometry::Vec2I;
use crate::geometry::pos_in_bounds;
use crate::geometry::spec_abs;
use crate::world::World;
use crate::COLLIDER_LIMIT;
use crate::DAMAGE_AMOUNT;

verus! {

/// Two AABBs overlap when they do on both axes: each center distance
/// is strictly below the sum of the half-extents.
pub open spec fn spec_overlaps(ap: Vec2I, ac: Collider, bp: Vec2I, bc: Collider) -> bool {
    &&& spec_abs(ap.x - bp.x) < ac.hx + bc.hx
    &&& spec_abs(ap.y - bp.y) < ac.hy + bc.hy
}

/// The overlap test is symmetric.
pub proof fn lemma_overlaps_symmetric(ap: Vec2I, ac: Collider, bp: Vec2I, bc: Collider)
    ensures
        spec_overlaps(ap, ac, bp, bc) == spec_overlaps(bp, bc, ap, ac),
{
}

/// The AABB overlap test on in-bounds positions.
pub fn overlaps(ap: Vec2I, ac: Collider, bp: Vec2I, bc: Collider) -> (r: bool)
    requires
        pos_in_bounds(ap),
        pos_in_bounds(bp),
        0 < ac.hx <= COLLIDER_LIMIT,
        0 < ac.hy <= COLLIDER_LIMIT,
        0 < bc.hx <= COLLIDER_LIMIT,
        0 < bc.hy <= COLLIDER_LIMIT,
    ensures
        r == spec_overlaps(ap, ac, bp, bc),
{
    let dx = if ap.x >= bp.x {
        ap.x - bp.x
    } else {
        bp.x - ap.x
    };
    let dy = if ap.y >= bp.y {
        ap.y - bp.y
    } else {
        bp.y - ap.y
    };
    dx < ac.hx + bc.hx && dy < ac.hy + bc.hy
}

/// Whether slot `t` is an eligible target of the projectile in slot
/// `p`: live, of the role the projectile's side may damage, and not
/// the shooter itself.
pub open spec fn eligible_target(s: Seq<EntityRec>, p: int, t: int) -> bool {
    let pr = s[p].projectile->Some_0;
    &&& s[t].alive
    &&& (if pr.friendly {
        s[t].role == Role::Enemy
    } else {
        s[t].role == Role::Player
    })
    &&& t != pr.shot_by as int
}

/// Whether the projectile in slot `p` hits the entity in slot `t`:
/// eligible, and the two AABBs overlap.
pub open spec fn hits(s: Seq<EntityRec>, p: int, t: int) -> bool {
    &&& eligible_target(s, p, t)
    &&& s[t].collider is Some
    &&& spec_overlaps(s[p].pos, s[p].collider->Some_0, s[t].pos, s[t].collider->Some_0)
}

/// A hit respects sides: a friendly projectile only ever hits an
/// enemy, a non-friendly one only the player — whatever the spatial
/// overlap — and no projectile hits its own shooter.
pub proof fn lemma_hit_respects_sides(s: Seq<EntityRec>, p: int, t: int)
    requires
        hits(s, p, t),
    ensures
        s[p].projectile->Some_0.friendly ==> s[t].role == Role::Enemy,
        !s[p].projectile->Some_0.friendly ==> s[t].role == Role::Player,
        t != s[p].projectile->Some_0.shot_by as int,
{
}

/// The first hit of projectile `p` at slot `t` or after.
pub open spec fn first_hit_from(s: Seq<EntityRec>, p: int, t: int) -> Option<int>
    decreases s.len() - t,
{
    if t < 0 || t >= s.len() {
        None
    } else if hits(s, p, t) {
        Some(t)
    } else {
        first_hit_from(s, p, t + 1)
    }
}

/// The first eligible overlapped target of projectile `p`, in slot
/// order; `None` when it hits nothing.
pub open spec fn spec_first_hit(s: Seq<EntityRec>, p: int) -> Option<int> {
    first_hit_from(s, p, 0)
}

/// What the scan returns is a hit, and the earliest one.
pub proof fn lemma_first_hit_is_hit(s: Seq<EntityRec>, p: int, t: int)
    ensures
        first_hit_from(s, p, t) matches Some(h) ==> t <= h < s.len() && hits(s, p, h) && forall|
            j: int,
        | t <= j < h ==> !hits(s, p, j),
    decreases s.len() - t,
{
    if 0 <= t < s.len() && !hits(s, p, t) {
        lemma_first_hit_is_hit(s, p, t + 1);
    }
}

/// The scan is blind to slots that only had a projectile destroyed:
/// a killed projectile was no eligible target before and is none
/// after.
pub proof fn lemma_first_hit_congruent(s1: Seq<EntityRec>, s2: Seq<EntityRec>, p: int, t: int)
    requires
        s1.len() == s2.len(),
        s2[p] == s1[p],
        forall|j: int|
            0 <= j < s1.len() ==> (#[trigger] s2[j] == s1[j] || (s2[j] == killed(s1[j]) && s1[j].role
                == Role::Projectile)),
    ensures
        first_hit_from(s1, p, t) == first_hit_from(s2, p, t),
    decreases s1.len() - t,
{
    if 0 <= t < s1.len() {
        assert(hits(s1, p, t) == hits(s2, p, t));
        lemma_first_hit_congruent(s1, s2, p, t + 1);
    }
}

/// The damage event the projectile in slot `p` contributes, if any.
pub open spec fn proj_event(s: Seq<EntityRec>, p: int) -> Option<DamageEvent> {
    if is_live(s[p], Role::Projectile) && spec_first_hit(s, p) is Some {
        Some(DamageEvent { target: spec_first_hit(s, p)->Some_0 as usize, amount: DAMAGE_AMOUNT })
    } else {
        None
    }
}

pub open spec fn opt_event_seq(o: Option<DamageEvent>) -> Seq<DamageEvent> {
    match o {
        Some(ev) => seq![ev],
        None => Seq::empty(),
    }
}

/// The damage events the projectiles in slots below `j` emit, in slot
/// order.
pub open spec fn collision_events_upto(s: Seq<EntityRec>, j: int) -> Seq<DamageEvent>
    decreases j,
{
    if j <= 0 {
        Seq::empty()
    } else {
        collision_events_upto(s, j - 1) + opt_event_seq(proj_event(s, j - 1))
    }
}

/// All damage events of the collision stage on store `s`.
pub open spec fn collision_events(s: Seq<EntityRec>) -> Seq<DamageEvent> {
    collision_events_upto(s, s.len() as int)
}

/// How many projectiles in slots below `j` hit something — each is
/// destroyed and emits its one event.
pub open spec fn hit_count_upto(s: Seq<EntityRec>, j: int) -> int
    decreases j,
{
    if j <= 0 {
        0
    } else {
        hit_count_upto(s, j - 1) + (if proj_event(s, j - 1) is Some {
            1int
        } else {
            0int
        })
    }
}

/// A projectile destroyed by collision emits exactly one damage
/// event: the batch holds one event per hitting projectile, no more.
pub proof fn lemma_one_event_per_projectile(s: Seq<EntityRec>, j: int)
    ensures
        collision_events_upto(s, j).len() == hit_count_upto(s, j),
    decreases j,
{
    if j > 0 {
        lemma_one_event_per_projectile(s, j - 1);
    }
}

/// Every event of the collision batch was emitted by some live
/// projectile against its first hit — so a friendly projectile's
/// event targets an enemy, a non-friendly projectile's event targets
/// the player, and no projectile ever targets its own shooter.
#[verifier::spinoff_prover]
#[verifier::rlimit(50)]
pub proof fn lemma_events_matched(s: Seq<EntityRec>, j: int)
    requires
        j <= s.len(),
        s.len() <= usize::MAX as int,
    ensures
        forall|k: int|
            #![trigger collision_events_upto(s, j)[k]]
            0 <= k < collision_events_upto(s, j).len() ==> exists|p: int|
                {
                    &&& 0 <= p < j
                    &&& is_live(#[trigger] s[p], Role::Projectile)
                    &&& spec_first_hit(s, p) == Some(
                        collision_events_upto(s, j)[k].target as int,
                    )
                    &&& hits(s, p, collision_events_upto(s, j)[k].target as int)
                    &&& collision_events_upto(s, j)[k].amount == DAMAGE_AMOUNT
                },
    decreases j,
{
    if j > 0 {
        lemma_events_matched(s, j - 1);
        let evs = collision_events_upto(s, j);
        let prev = collision_events_upto(s, j - 1);
        lemma_first_hit_is_hit(s, j - 1, 0);
        assert forall|k: int| #![trigger evs[k]] 0 <= k < evs.len() implies exists|p: int|
            {
                &&& 0 <= p < j
                &&& is_live(#[trigger] s[p], Role::Projectile)
                &&& spec_first_hit(s, p) == Some(evs[k].target as int)
                &&& hits(s, p, evs[k].target as int)
                &&& evs[k].amount == DAMAGE_AMOUNT
            } by {
            if k < prev.len() {
                assert(evs[k] == prev[k]);
                let p = choose|p: int|
                    {
                        &&& 0 <= p < j - 1
                        &&& is_live(#[trigger] s[p], Role::Projectile)
                        &&& spec_first_hit(s, p) == Some(prev[k].target as int)
                        &&& hits(s, p, prev[k].target as int)
                        &&& prev[k].amount == DAMAGE_AMOUNT
                    };
                assert({
                    &&& 0 <= p < j
                    &&& is_live(s[p], Role::Projectile)
                    &&& spec_first_hit(s, p) == Some(evs[k].target as int)
                    &&& hits(s, p, evs[k].target as int)
                    &&& evs[k].amount == DAMAGE_AMOUNT
                });
            } else {
                assert(proj_event(s, j - 1) is Some);
                assert(evs[k] == proj_event(s, j - 1)->Some_0);
                let h = spec_first_hit(s, j - 1)->Some_0;
                assert(0 <= h < s.len());
                assert(evs[k].target as int == h);
                assert({
                    &&& 0 <= j - 1 < j
                    &&& is_live(s[j - 1], Role::Projectile)
                    &&& spec_first_hit(s, j - 1) == Some(evs[k].target as int)
                    &&& hits(s, j - 1, evs[k].target as int)
                    &&& evs[k].amount == DAMAGE_AMOUNT
                });
            }
        }
    }
}

/// Scan for the first eligible overlapped target of the projectile in
/// slot `p`.
pub fn first_hit(w: &World, p: usize) -> (r: Option<usize>)
    requires
        w.wf(),
        p < w.ents.len(),
        w.ents[p as int].projectile is Some,
        w.ents[p as int].collider is Some,
    ensures
        r matches Some(t) ==> t < w.ents.len() && spec_first_hit(w.ents@, p as int) == Some(
            t as int,
        ),
        r is None ==> spec_first_hit(w.ents@, p as int) is None,
{
    let n = w.ents.len();
    let e = w.ents[p];
    let ec = e.collider.unwrap();
    let pr = e.projectile.unwrap();
    let mut t: usize = 0;
    while t < n
        invariant
            t <= n == w.ents.len(),
            w.wf(),
            p < n,
            e == w.ents[p as int],
            e.collider is Some,
            e.projectile is Some,
            ec == e.collider->Some_0,
            pr == e.projectile->Some_0,
            first_hit_from(w.ents@, p as int, 0) == first_hit_from(w.ents@, p as int, t as int),
        decreases n - t,
    {
        proof {
            assert(crate::components::wf_ent(w.ents[p as int], n as int));
            assert(crate::components::wf_ent(w.ents[t as int], n as int));
        }
        let c = w.ents[t];
        let role_ok = if pr.friendly {
            matches!(c.role, Role::Enemy)
        } else {
            matches!(c.role, Role::Player)
        };
        if c.alive && role_ok && t != pr.shot_by {
            match c.collider {
                Some(cc) => {
                    if overlaps(e.pos, ec, c.pos, cc) {
                        return Some(t);
                    }
                },
                None => {},
            }
        }
        proof {
            assert(!hits(w.ents@, p as int, t as int));
        }
        t += 1;
    }
    None
}

/// The separation magnitude for an overlapping enemy pair at distance
/// `dist`: a soft push of strength growing with the overlap depth,
/// `dist x 1.5 x dt`, in milli-units.
pub open spec fn spec_sep_mag(dist: int, dt: int) -> int {
    dist * 3 * dt / 2000
}

/// Where one separation step puts an overlapping enemy pair: both are
/// pushed apart along the line between their centers. Coincident
/// centers — where that line is degenerate — fall back to a fixed
/// horizontal nudge of at least one milli-unit, so the pair always
/// comes apart.
pub open spec fn sep_positions(a: EntityRec, b: EntityRec, dt: int) -> (Vec2I, Vec2I) {
    if !spec_overlaps(a.pos, a.collider->Some_0, b.pos, b.collider->Some_0) {
        (a.pos, b.pos)
    } else {
        let v = Vec2I { x: (a.pos.x - b.pos.x) as i64, y: (a.pos.y - b.pos.y) as i64 };
        if v.x == 0 && v.y == 0 {
            let mag = if dt >= 1 {
                dt
            } else {
                1int
            };
            (
                Vec2I { x: crate::spec_clamp_coord(a.pos.x + mag) as i64, y: a.pos.y },
                Vec2I { x: crate::spec_clamp_coord(b.pos.x - mag) as i64, y: b.pos.y },
            )
        } else {
            let mag = spec_sep_mag(crate::geometry::spec_len(v), dt);
            let px = crate::geometry::spec_sdiv(crate::geometry::spec_norm_x(v) * mag, 1000);
            let py = crate::geometry::spec_sdiv(crate::geometry::spec_norm_y(v) * mag, 1000);
            (
                Vec2I {
                    x: crate::spec_clamp_coord(a.pos.x + px) as i64,
                    y: crate::spec_clamp_coord(a.pos.y + py) as i64,
                },
                Vec2I {
                    x: crate::spec_clamp_coord(b.pos.x - px) as i64,
                    y: crate::spec_clamp_coord(b.pos.y - py) as i64,
                },
            )
        }
    }
}

/// Two records that differ at most in their position.
pub open spec fn same_but_pos(a: EntityRec, b: EntityRec) -> bool {
    b == EntityRec { pos: b.pos, ..a }
}

/// The store after the projectile pass: every live projectile with a
/// first hit is destroyed, everything else is untouched.
pub open spec fn after_projectile_pass(s: Seq<EntityRec>) -> Seq<EntityRec> {
    Seq::new(
        s.len(),
        |j: int|
            if is_live(s[j], Role::Projectile) && spec_first_hit(s, j) is Some {
                killed(s[j])
            } else {
                s[j]
            },
    )
}

/// One step of the separation pass on the ordered pair `(i, j)`: when
/// both slots hold live enemies, their positions move to where one
/// separation puts them.
pub open spec fn sep_step(s: Seq<EntityRec>, i: int, j: int, dt: int) -> Seq<EntityRec> {
    if 0 <= i < s.len() && 0 <= j < s.len() && is_live(s[i], Role::Enemy) && is_live(
        s[j],
        Role::Enemy,
    ) {
        let pp = sep_positions(s[i], s[j], dt);
        s.update(i, EntityRec { pos: pp.0, ..s[i] }).update(j, EntityRec { pos: pp.1, ..s[j] })
    } else {
        s
    }
}

/// The separation pass of slot `i` against the slots from `j` up.
pub open spec fn sep_pass_inner(s: Seq<EntityRec>, i: int, j: int, dt: int) -> Seq<EntityRec>
    decreases s.len() - j,
    via sep_pass_inner_decreases
{
    if j < 0 || j >= s.len() {
        s
    } else {
        sep_pass_inner(sep_step(s, i, j, dt), i, j + 1, dt)
    }
}

#[via_fn]
proof fn sep_pass_inner_decreases(s: Seq<EntityRec>, i: int, j: int, dt: int) {
    assert(sep_step(s, i, j, dt).len() == s.len());
}

/// The whole separation pass from slot `i` up: each unordered pair of
/// slots is visited exactly once, in order, on the store the previous
/// pairs produced.
pub open spec fn sep_pass(s: Seq<EntityRec>, i: int, dt: int) -> Seq<EntityRec>
    decreases s.len() - i,
    via sep_pass_decreases
{
    if i < 0 || i >= s.len() {
        s
    } else {
        sep_pass(sep_pass_inner(s, i, i + 1, dt), i + 1, dt)
    }
}

#[via_fn]
proof fn sep_pass_decreases(s: Seq<EntityRec>, i: int, dt: int) {
    if 0 <= i < s.len() {
        lemma_sep_inner_len(s, i, i + 1, dt);
    }
}

/// The separation pass keeps the store's length.
pub proof fn lemma_sep_inner_len(s: Seq<EntityRec>, i: int, j: int, dt: int)
    ensures
        sep_pass_inner(s, i, j, dt).len() == s.len(),
    decreases s.len() - j,
{
    if 0 <= j < s.len() {
        lemma_sep_inner_len(sep_step(s, i, j, dt), i, j + 1, dt);
    }
}

/// A slot that holds no live enemy separates against nothing.
pub proof fn lemma_sep_inner_noop(s: Seq<EntityRec>, i: int, j: int, dt: int)
    requires
        !is_live(s[i], Role::Enemy),
    ensures
        sep_pass_inner(s, i, j, dt) == s,
    decreases s.len() - j,
{
    if 0 <= j < s.len() {
        lemma_sep_inner_noop(s, i, j + 1, dt);
    }
}

/// One separation step on the enemy pair `(a, b)`: if their AABBs
/// overlap, push both apart; integer arithmetic throughout, so no
/// position can become undefined, and a coincident pair always leaves
/// with different positions.
#[verifier::rlimit(50)]
pub fn separate_pair(w: &mut World, a: usize, b: usize, dt: i64)
    requires
        old(w).wf(),
        a < old(w).ents.len(),
        b < old(w).ents.len(),
        a != b,
        is_live(old(w).ents[a as int], Role::Enemy),
        is_live(old(w).ents[b as int], Role::Enemy),
        0 <= dt < crate::DT_LIMIT,
    ensures
        final(w).wf(),
        final(w).ents.len() == old(w).ents.len(),
        final(w).events@ == old(w).events@,
        forall|j: int|
            0 <= j < old(w).ents.len() && j != a && j != b ==> #[trigger] final(w).ents[j] == old(
                w,
            ).ents[j],
        final(w).ents[a as int] == (EntityRec {
            pos: sep_positions(old(w).ents[a as int], old(w).ents[b as int], dt as int).0,
            ..old(w).ents[a as int]
        }),
        final(w).ents[b as int] == (EntityRec {
            pos: sep_positions(old(w).ents[a as int], old(w).ents[b as int], dt as int).1,
            ..old(w).ents[b as int]
        }),
        old(w).ents[a as int].pos == old(w).ents[b as int].pos ==> final(w).ents[a as int].pos.x
            != final(w).ents[b as int].pos.x,
{
    let ea = w.ents[a];
    let eb = w.ents[b];
    let ca = ea.collider.unwrap();
    let cb = eb.collider.unwrap();
    if overlaps(ea.pos, ca, eb.pos, cb) {
        let v = Vec2I { x: ea.pos.x - eb.pos.x, y: ea.pos.y - eb.pos.y };
        match crate::geometry::normalize(v) {
            None => {
                let mag: i64 = if dt >= 1 {
                    dt
                } else {
                    1
                };
                let mut ea2 = ea;
                ea2.pos = Vec2I { x: crate::clamp_coord(ea.pos.x + mag), y: ea.pos.y };
                let mut eb2 = eb;
                eb2.pos = Vec2I { x: crate::clamp_coord(eb.pos.x - mag), y: eb.pos.y };
                w.ents[a] = ea2;
                w.ents[b] = eb2;
            },
            Some(dir) => {
                let dist = crate::geometry::vec_len(v);
                proof {
                    assert(0 <= ((dist as int) * 3) * (dt as int)
                        <= 900_000_000_000_000_000int) by (nonlinear_arith)
                        requires
                            0 <= dist <= 3_000_000_000_000int,
                            0 <= dt <= 100_000int,
                    ;
                }
                let magu: u64 = ((dist as u64) * 3) * (dt as u64) / 2000;
                let mag = magu as i64;
                proof {
                    assert(0 <= mag <= 450_000_000_000_000int);
                    assert(crate::geometry::spec_abs((dir.x as int)) * (mag as int) <= 1000 * (mag
                        as int) && crate::geometry::spec_abs((dir.y as int)) * (mag as int) <= 1000
                        * (mag as int)) by (nonlinear_arith)
                        requires
                            crate::geometry::spec_abs(dir.x as int) <= 1000,
                            crate::geometry::spec_abs(dir.y as int) <= 1000,
                            mag >= 0,
                    ;
                }
                let px = crate::geometry::scale_div(dir.x, mag, crate::DIR_SCALE);
                let py = crate::geometry::scale_div(dir.y, mag, crate::DIR_SCALE);
                proof {
                    assert(crate::geometry::spec_abs((dir.x as int) * (mag as int)) <= (mag as int)
                        * 1000 && crate::geometry::spec_abs((dir.y as int) * (mag as int)) <= (mag
                        as int) * 1000) by (nonlinear_arith)
                        requires
                            crate::geometry::spec_abs(dir.x as int) <= 1000,
                            crate::geometry::spec_abs(dir.y as int) <= 1000,
                            mag >= 0,
                    ;
                    crate::geometry::lemma_sdiv_bound(
                        (dir.x as int) * (mag as int),
                        1000,
                        mag as int,
                    );
                    crate::geometry::lemma_sdiv_bound(
                        (dir.y as int) * (mag as int),
                        1000,
                        mag as int,
                    );
                }
                let mut ea2 = ea;
                ea2.pos = Vec2I {
                    x: crate::clamp_coord(ea.pos.x + px),
                    y: crate::clamp_coord(ea.pos.y + py),
                };
                let mut eb2 = eb;
                eb2.pos = Vec2I {
                    x: crate::clamp_coord(eb.pos.x - px),
                    y: crate::clamp_coord(eb.pos.y - py),
                };
                w.ents[a] = ea2;
                w.ents[b] = eb2;
            },
        }
    }
}

/// The whole collision stage. First every live projectile is tested
/// against its eligible targets in slot order: the first overlap
/// emits one damage event and destroys the projectile at once, so it
/// can score at most one hit. Then every unordered pair of live
/// enemies is separated once — visiting a pair once keeps the
/// symmetric push from being applied twice.
#[verifier::rlimit(100)]
pub fn detect_collisions(w: &mut World, dt: i64)
    requires
        old(w).wf(),
        0 <= dt < crate::DT_LIMIT,
    ensures
        final(w).wf(),
        final(w).ents.len() == old(w).ents.len(),
        final(w).events@ == old(w).events@ + collision_events(old(w).ents@),
        final(w).ents@ == sep_pass(after_projectile_pass(old(w).ents@), 0, dt as int),
        forall|j: int|
            0 <= j < old(w).ents.len() && is_live(#[trigger] old(w).ents[j], Role::Projectile)
                ==> final(w).ents[j] == (if spec_first_hit(old(w).ents@, j) is Some {
                killed(old(w).ents[j])
            } else {
                old(w).ents[j]
            }),
        forall|j: int|
            0 <= j < old(w).ents.len() && is_live(#[trigger] old(w).ents[j], Role::Enemy)
                ==> same_but_pos(old(w).ents[j], final(w).ents[j]),
        forall|j: int|
            0 <= j < old(w).ents.len() && !is_live(#[trigger] old(w).ents[j], Role::Projectile)
                && !is_live(old(w).ents[j], Role::Enemy) ==> final(w).ents[j] == old(w).ents[j],
{
    let n = w.ents.len();
    let mut p: usize = 0;
    while p < n
        invariant
            p <= n == w.ents.len() == old(w).ents.len(),
            0 <= dt < crate::DT_LIMIT,
            w.wf(),
            w.events@ == old(w).events@ + collision_events_upto(old(w).ents@, p as int),
            forall|j: int|
                0 <= j < n ==> #[trigger] w.ents[j] == (if j < p && is_live(
                    old(w).ents[j],
                    Role::Projectile,
                ) && spec_first_hit(old(w).ents@, j) is Some {
                    killed(old(w).ents[j])
                } else {
                    old(w).ents[j]
                }),
        decreases n - p,
    {
        let e = w.ents[p];
        if e.alive && matches!(e.role, Role::Projectile) {
            proof {
                lemma_first_hit_congruent(old(w).ents@, w.ents@, p as int, 0);
            }
            match first_hit(w, p) {
                Some(t) => {
                    w.events.push(DamageEvent { target: t, amount: DAMAGE_AMOUNT });
                    let mut e2 = e;
                    e2.alive = false;
                    w.ents[p] = e2;
                    proof {
                        assert(proj_event(old(w).ents@, p as int) == Some(
                            DamageEvent { target: t, amount: DAMAGE_AMOUNT },
                        ));
                        assert(w.events@ =~= old(w).events@ + collision_events_upto(
                            old(w).ents@,
                            p as int + 1,
                        ));
                    }
                },
                None => {
                    proof {
                        assert(proj_event(old(w).ents@, p as int) is None);
                        assert(w.events@ =~= old(w).events@ + collision_events_upto(
                            old(w).ents@,
                            p as int + 1,
                        ));
                    }
                },
            }
        } else {
            proof {
                assert(proj_event(old(w).ents@, p as int) is None);
                assert(w.events@ =~= old(w).events@ + collision_events_upto(
                    old(w).ents@,
                    p as int + 1,
                ));
            }
        }
        p += 1;
    }
    let ghost mid = w.ents@;
    proof {
        assert(mid =~= after_projectile_pass(old(w).ents@));
    }
    let mut i: usize = 0;
    while i < n
        invariant
            i <= n == w.ents.len(),
            mid.len() == n,
            0 <= dt < crate::DT_LIMIT,
            w.wf(),
            sep_pass(w.ents@, i as int, dt as int) == sep_pass(mid, 0, dt as int),
            w.events@ == old(w).events@ + collision_events_upto(old(w).ents@, n as int),
            n == old(w).ents.len(),
            forall|j: int|
                0 <= j < n ==> #[trigger] mid[j] == (if is_live(
                    old(w).ents[j],
                    Role::Projectile,
                ) && spec_first_hit(old(w).ents@, j) is Some {
                    killed(old(w).ents[j])
                } else {
                    old(w).ents[j]
                }),
            forall|j: int|
                0 <= j < n ==> (if is_live(#[trigger] mid[j], Role::Enemy) {
                    same_but_pos(mid[j], w.ents[j])
                } else {
                    w.ents[j] == mid[j]
                }),
        decreases n - i,
    {
        let ei = w.ents[i];
        let ghost inner_start = w.ents@;
        if ei.alive && matches!(ei.role, Role::Enemy) {
            let mut j: usize = i + 1;
            while j < n
                invariant
                    i < j <= n == w.ents.len(),
                    mid.len() == n,
                    0 <= dt < crate::DT_LIMIT,
                    w.wf(),
                    inner_start.len() == n,
                    sep_pass_inner(w.ents@, i as int, j as int, dt as int) == sep_pass_inner(
                        inner_start,
                        i as int,
                        i as int + 1,
                        dt as int,
                    ),
                    is_live(mid[i as int], Role::Enemy),
                    w.events@ == old(w).events@ + collision_events_upto(old(w).ents@, n as int),
                    n == old(w).ents.len(),
                    forall|jj: int|
                        0 <= jj < n ==> #[trigger] mid[jj] == (if is_live(
                            old(w).ents[jj],
                            Role::Projectile,
                        ) && spec_first_hit(old(w).ents@, jj) is Some {
                            killed(old(w).ents[jj])
                        } else {
                            old(w).ents[jj]
                        }),
                    forall|jj: int|
                        0 <= jj < n ==> (if is_live(#[trigger] mid[jj], Role::Enemy) {
                            same_but_pos(mid[jj], w.ents[jj])
                        } else {
                            w.ents[jj] == mid[jj]
                        }),
                decreases n - j,
            {
                let ej = w.ents[j];
                let ghost prev = w.ents@;
                if ej.alive && matches!(ej.role, Role::Enemy) {
                    separate_pair(w, i, j, dt);
                    proof {
                        assert(w.ents@ =~= sep_step(prev, i as int, j as int, dt as int));
                    }
                } else {
                    proof {
                        assert(w.ents@ == sep_step(prev, i as int, j as int, dt as int));
                    }
                }
                j += 1;
            }
            proof {
                assert(sep_pass(inner_start, i as int, dt as int) == sep_pass(
                    w.ents@,
                    i as int + 1,
                    dt as int,
                ));
            }
        } else {
            proof {
                lemma_sep_inner_noop(w.ents@, i as int, i as int + 1, dt as int);
                assert(sep_pass(w.ents@, i as int, dt as int) == sep_pass(
                    w.ents@,
                    i as int + 1,
                    dt as int,
                ));
            }
        }
        i += 1;
    }
    proof {
        assert forall|j: int|
            #![trigger old(w).ents[j]]
            0 <= j < n implies {
            &&& (is_live(old(w).ents[j], Role::Projectile) ==> w.ents[j] == (if spec_first_hit(
                old(w).ents@,
                j,
            ) is Some {
                killed(old(w).ents[j])
            } else {
                old(w).ents[j]
            }))
            &&& (is_live(old(w).ents[j], Role::Enemy) ==> same_but_pos(old(w).ents[j], w.ents[j]))
            &&& (!is_live(old(w).ents[j], Role::Projectile) && !is_live(old(w).ents[j], Role::Enemy)
                ==> w.ents[j] == old(w).ents[j])
        } by {
            assert(mid[j] == (if is_live(old(w).ents[j], Role::Projectile) && spec_first_hit(
                old(w).ents@,
                j,
            ) is Some {
                killed(old(w).ents[j])
            } else {
                old(w).ents[j]
            }));
            if is_live(mid[j], Role::Enemy) {
                assert(same_but_pos(mid[j], w.ents[j]));
            } else {
                assert(w.ents[j] == mid[j]);
            }
        }
    }
}

} // verus!
