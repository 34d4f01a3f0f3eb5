use shooter_core::collision::detect_collisions;
use shooter_core::collision::separate_pair;
use shooter_core::components::Health;
use shooter_core::components::Role;
use shooter_core::components::DamageEvent;
use shooter_core::damage::handle_damage;
use shooter_core::geometry::Vec2I;
use shooter_core::movement::move_projectiles;
use shooter_core::shooting::handle_shooting;
use shooter_core::world::World;
use shooter_core::world::spawn_enemy_at;
use shooter_core::world::spawn_player;

/// Player at the origin fires one friendly projectile at an enemy at
/// (300, 0) with health 10/10: the projectile travels into the
/// enemy's 50 by 50 collider, exactly one damage event is emitted,
/// health drops to 9/10, and the projectile entity is destroyed.
#[test]
fn one_shot_one_hit() {
    let mut w = World::new();
    spawn_player(&mut w);
    let ei = spawn_enemy_at(&mut w, Vec2I { x: 300_000, y: 0 }, 1000);
    w.ents[ei].health = Some(Health { current: 10, max: 10 });
    handle_shooting(&mut w, false, None, 500).unwrap();
    handle_shooting(&mut w, true, Some(Vec2I { x: 300_000, y: 0 }), 100).unwrap();
    let proj = w.ents.len() - 1;
    assert_eq!(w.ents[proj].role, Role::Projectile);

    let mut total_events = 0;
    for _ in 0..20 {
        move_projectiles(&mut w, 100);
        detect_collisions(&mut w, 100);
        total_events += w.events.len();
        handle_damage(&mut w);
    }
    assert_eq!(total_events, 1);
    assert_eq!(w.ents[ei].health, Some(Health { current: 9, max: 10 }));
    assert!(w.ents[ei].alive);
    assert!(!w.ents[proj].alive);
}

/// An enemy at 1 health takes a damage event of 1: health becomes
/// 0/max and the enemy is destroyed together with its two
/// health-indicator dependents, within the same tick.
#[test]
fn lethal_hit_cascades_to_dependents() {
    let mut w = World::new();
    spawn_player(&mut w);
    let ei = spawn_enemy_at(&mut w, Vec2I { x: 100_000, y: 0 }, 1000);
    w.ents[ei].health = Some(Health { current: 1, max: 5 });
    w.events.push(DamageEvent { target: ei, amount: 1 });
    handle_damage(&mut w);
    assert_eq!(w.ents[ei].health, Some(Health { current: 0, max: 5 }));
    assert!(!w.ents[ei].alive);
    assert!(!w.ents[ei + 1].alive);
    assert!(!w.ents[ei + 2].alive);
    assert_eq!(w.events.len(), 0);
}

/// Two enemies spawned at identical coordinates come apart after one
/// tick of separation: their positions differ and stay well-defined.
#[test]
fn coincident_enemies_separate() {
    let mut w = World::new();
    spawn_player(&mut w);
    let a = spawn_enemy_at(&mut w, Vec2I { x: 100_000, y: 50_000 }, 1000);
    let b = spawn_enemy_at(&mut w, Vec2I { x: 100_000, y: 50_000 }, 1000);
    detect_collisions(&mut w, 16);
    assert_ne!(w.ents[a].pos, w.ents[b].pos);
    assert!(w.ents[a].alive && w.ents[b].alive);
    assert_eq!(w.events.len(), 0);
}

/// Overlapping enemies at distinct centers are pushed apart along the
/// line between them, in proportion to distance and delta-time.
#[test]
fn separation_pushes_both_apart() {
    let mut w = World::new();
    spawn_player(&mut w);
    let a = spawn_enemy_at(&mut w, Vec2I { x: 0, y: 0 }, 1000);
    let b = spawn_enemy_at(&mut w, Vec2I { x: 10_000, y: 0 }, 1000);
    separate_pair(&mut w, a, b, 16);
    // dist 10_000, push 10_000 * 1.5 * 0.016 = 240 milli-units each
    // way, along (-1000, 0) seen from the first enemy.
    assert_eq!(w.ents[a].pos, Vec2I { x: -240, y: 0 });
    assert_eq!(w.ents[b].pos, Vec2I { x: 10_240, y: 0 });
}

/// Enemies apart by more than their summed half-extents are not
/// touched by the separation pass.
#[test]
fn distant_enemies_are_left_alone() {
    let mut w = World::new();
    spawn_player(&mut w);
    let a = spawn_enemy_at(&mut w, Vec2I { x: 0, y: 0 }, 1000);
    let b = spawn_enemy_at(&mut w, Vec2I { x: 60_000, y: 0 }, 1000);
    detect_collisions(&mut w, 16);
    assert_eq!(w.ents[a].pos, Vec2I { x: 0, y: 0 });
    assert_eq!(w.ents[b].pos, Vec2I { x: 60_000, y: 0 });
}

/// A non-friendly projectile overlapping an enemy hits nothing — it
/// may damage the player only — and a friendly one overlapping the
/// player hits nothing either.
#[test]
fn friendliness_gates_eligibility() {
    let mut w = World::new();
    let pi = spawn_player(&mut w);
    let ei = spawn_enemy_at(&mut w, Vec2I { x: 200_000, y: 0 }, 1000);

    // A friendly projectile sitting on the player: no event.
    handle_shooting(&mut w, false, None, 500).unwrap();
    handle_shooting(&mut w, true, Some(Vec2I { x: 1, y: 0 }), 100).unwrap();
    let proj = w.ents.len() - 1;
    assert!(w.ents[proj].projectile.unwrap().friendly);
    detect_collisions(&mut w, 16);
    assert_eq!(w.events.len(), 0);
    assert!(w.ents[proj].alive);

    // The same projectile made non-friendly on the enemy: no event
    // against the enemy; moved onto the player it hits the player.
    let mut pr = w.ents[proj].projectile.unwrap();
    pr.friendly = false;
    pr.shot_by = ei;
    w.ents[proj].projectile = Some(pr);
    w.ents[proj].pos = Vec2I { x: 200_000, y: 0 };
    detect_collisions(&mut w, 16);
    assert_eq!(w.events.len(), 0);
    assert!(w.ents[proj].alive);

    w.ents[proj].pos = Vec2I { x: 0, y: 0 };
    detect_collisions(&mut w, 16);
    assert_eq!(w.events.len(), 1);
    assert_eq!(w.events[0], DamageEvent { target: pi, amount: 1 });
    assert!(!w.ents[proj].alive);
}

/// A projectile overlapping two eligible enemies at once scores a
/// single hit: the first in slot order wins and the projectile is
/// destroyed at once.
#[test]
fn first_overlap_wins_and_destroys() {
    let mut w = World::new();
    spawn_player(&mut w);
    let a = spawn_enemy_at(&mut w, Vec2I { x: 200_000, y: 0 }, 1000);
    let b = spawn_enemy_at(&mut w, Vec2I { x: 210_000, y: 0 }, 1000);
    handle_shooting(&mut w, false, None, 500).unwrap();
    handle_shooting(&mut w, true, Some(Vec2I { x: 200_000, y: 0 }), 100).unwrap();
    let proj = w.ents.len() - 1;
    w.ents[proj].pos = Vec2I { x: 205_000, y: 0 };
    detect_collisions(&mut w, 0);
    assert_eq!(w.events.len(), 1);
    assert_eq!(w.events[0], DamageEvent { target: a, amount: 1 });
    assert!(!w.ents[proj].alive);
    assert!(w.ents[b].alive);
    handle_damage(&mut w);
    assert_eq!(w.ents[a].health, Some(Health { current: 4, max: 5 }));
    assert_eq!(w.ents[b].health, Some(Health { current: 5, max: 5 }));
}
