use shooter_core::components::Health;
use shooter_core::components::Role;
use shooter_core::components::SidestepMode;
use shooter_core::components::SimError;
use shooter_core::components::DamageEvent;
use shooter_core::damage::handle_damage;
use shooter_core::enemy::health_bar_geometry;
use shooter_core::enemy::move_enemies;
use shooter_core::enemy::reroll_sidestep;
use shooter_core::enemy::spawn_enemies;
use shooter_core::enemy::spawn_enemy;
use shooter_core::enemy::update_health_bars;
use shooter_core::geometry::Vec2I;
use shooter_core::movement::DirInput;
use shooter_core::movement::move_player;
use shooter_core::movement::move_projectiles;
use shooter_core::shooting::handle_shooting;
use shooter_core::timer::Timer;
use shooter_core::world::World;
use shooter_core::world::player_index;
use shooter_core::world::spawn_enemy_at;
use shooter_core::world::spawn_player;
use shooter_core::ENEMY_COUNT;

#[test]
fn player_index_finds_first_live_player() {
    let mut w = World::new();
    assert_eq!(player_index(&w), None);
    let pi = spawn_player(&mut w);
    assert_eq!(player_index(&w), Some(pi));
    w.ents[pi].alive = false;
    assert_eq!(player_index(&w), None);
}

#[test]
fn move_player_diagonal_is_normalized() {
    let mut w = World::new();
    let pi = spawn_player(&mut w);
    let inp = DirInput { up: true, down: false, left: false, right: true };
    move_player(&mut w, inp, 1000).unwrap();
    // A diagonal intent moves by the unit diagonal (707, 707) per
    // 1000 milli-units of speed-seconds: 707 * 200_000 * 1000 / 1e6.
    assert_eq!(w.ents[pi].pos, Vec2I { x: 141_400, y: 141_400 });
}

#[test]
fn move_player_zero_intent_stays() {
    let mut w = World::new();
    let pi = spawn_player(&mut w);
    let inp = DirInput { up: true, down: true, left: false, right: false };
    move_player(&mut w, inp, 1000).unwrap();
    assert_eq!(w.ents[pi].pos, Vec2I { x: 0, y: 0 });
}

#[test]
fn move_player_without_player_fails() {
    let mut w = World::new();
    let inp = DirInput { up: false, down: false, left: false, right: false };
    assert_eq!(move_player(&mut w, inp, 16), Err(SimError::NoPlayer));
}

#[test]
fn cooldown_gates_firing() {
    let mut w = World::new();
    let pi = spawn_player(&mut w);
    let target = Some(Vec2I { x: 300_000, y: 0 });
    // Fresh timer: not finished, so holding fire spawns nothing for
    // four 100 ms ticks, then the fifth tick finishes the 500 ms
    // cooldown.
    for _ in 0..5 {
        handle_shooting(&mut w, true, target, 100).unwrap();
        assert_eq!(w.ents.len(), 1);
    }
    assert!(w.ents[pi].reload.unwrap().finished);
    handle_shooting(&mut w, true, target, 100).unwrap();
    assert_eq!(w.ents.len(), 2);
    // Right after firing the cooldown is recovering again.
    assert!(!w.ents[pi].reload.unwrap().finished);
    handle_shooting(&mut w, true, target, 100).unwrap();
    assert_eq!(w.ents.len(), 2);
}

#[test]
fn held_charge_is_not_lost_without_fire() {
    let mut w = World::new();
    let pi = spawn_player(&mut w);
    handle_shooting(&mut w, false, None, 500).unwrap();
    assert!(w.ents[pi].reload.unwrap().finished);
    // No fire intent: the timer is left finished, the charge held.
    handle_shooting(&mut w, false, None, 500).unwrap();
    handle_shooting(&mut w, false, None, 500).unwrap();
    assert!(w.ents[pi].reload.unwrap().finished);
    assert_eq!(w.ents.len(), 1);
    handle_shooting(&mut w, true, Some(Vec2I { x: 100_000, y: 0 }), 100).unwrap();
    assert_eq!(w.ents.len(), 2);
}

#[test]
fn firing_at_own_position_is_guarded() {
    let mut w = World::new();
    spawn_player(&mut w);
    handle_shooting(&mut w, false, None, 500).unwrap();
    handle_shooting(&mut w, true, Some(Vec2I { x: 0, y: 0 }), 100).unwrap();
    assert_eq!(w.ents.len(), 1);
}

#[test]
fn projectile_drifts_by_its_direction() {
    let mut w = World::new();
    spawn_player(&mut w);
    handle_shooting(&mut w, false, None, 500).unwrap();
    handle_shooting(&mut w, true, Some(Vec2I { x: 300_000, y: 0 }), 100).unwrap();
    let proj = w.ents.len() - 1;
    assert_eq!(w.ents[proj].role, Role::Projectile);
    assert!(w.ents[proj].projectile.unwrap().friendly);
    move_projectiles(&mut w, 100);
    // 1000 * 400_000 * 100 / 1e6 = 40_000 milli-units per tick.
    assert_eq!(w.ents[proj].pos, Vec2I { x: 40_000, y: 0 });
    move_projectiles(&mut w, 100);
    assert_eq!(w.ents[proj].pos, Vec2I { x: 80_000, y: 0 });
}

#[test]
fn dead_projectile_does_not_move() {
    let mut w = World::new();
    spawn_player(&mut w);
    handle_shooting(&mut w, false, None, 500).unwrap();
    handle_shooting(&mut w, true, Some(Vec2I { x: 300_000, y: 0 }), 100).unwrap();
    let proj = w.ents.len() - 1;
    w.ents[proj].alive = false;
    move_projectiles(&mut w, 100);
    assert_eq!(w.ents[proj].pos, Vec2I { x: 0, y: 0 });
}

#[test]
fn reroll_thresholds_are_quarters() {
    assert_eq!(reroll_sidestep(0), SidestepMode::Left);
    assert_eq!(reroll_sidestep(2_499), SidestepMode::Left);
    assert_eq!(reroll_sidestep(2_500), SidestepMode::Right);
    assert_eq!(reroll_sidestep(4_999), SidestepMode::Right);
    assert_eq!(reroll_sidestep(5_000), SidestepMode::Stationary);
    assert_eq!(reroll_sidestep(9_999), SidestepMode::Stationary);
}

#[test]
fn reroll_distribution_quarter_quarter_half() {
    // A fixed-seed generator driving the public decision function:
    // about 25% left, 25% right, 50% stationary.
    let mut state: u64 = 0x1234_5678_9abc_def0;
    let mut counts = [0u32; 3];
    let n = 100_000;
    for _ in 0..n {
        state = state.wrapping_mul(6364136223846793005).wrapping_add(1442695040888963407);
        let draw = ((state >> 33) % 10_000) as i64;
        match reroll_sidestep(draw) {
            SidestepMode::Left => counts[0] += 1,
            SidestepMode::Right => counts[1] += 1,
            SidestepMode::Stationary => counts[2] += 1,
        }
    }
    let quarter = n / 4;
    let half = n / 2;
    let tol = n / 50;
    assert!(counts[0].abs_diff(quarter) < tol);
    assert!(counts[1].abs_diff(quarter) < tol);
    assert!(counts[2].abs_diff(half) < tol);
}

#[test]
fn enemy_approaches_from_afar() {
    let mut w = World::new();
    spawn_player(&mut w);
    let ei = spawn_enemy_at(&mut w, Vec2I { x: 400_000, y: 0 }, 1000);
    move_enemies(&mut w, 100).unwrap();
    // Beyond 250 units the enemy closes in: 1000 * 150_000 * 100 / 1e6.
    assert_eq!(w.ents[ei].pos, Vec2I { x: 385_000, y: 0 });
    assert_eq!(w.ents[ei].sidestep_mode, Some(SidestepMode::Stationary));
}

#[test]
fn enemy_holds_inside_range() {
    let mut w = World::new();
    spawn_player(&mut w);
    let ei = spawn_enemy_at(&mut w, Vec2I { x: 200_000, y: 0 }, 1000);
    move_enemies(&mut w, 100).unwrap();
    assert_eq!(w.ents[ei].pos, Vec2I { x: 200_000, y: 0 });
}

#[test]
fn enemy_strafe_adds_to_approach() {
    let mut w = World::new();
    spawn_player(&mut w);
    let ei = spawn_enemy_at(&mut w, Vec2I { x: 300_000, y: 0 }, 1000);
    w.ents[ei].sidestep_mode = Some(SidestepMode::Right);
    move_enemies(&mut w, 100).unwrap();
    // Direction to the player is (-1000, 0); right of it is (0, 1000):
    // strafe (0, 15_000), then approach (-15_000, 0) on top.
    assert_eq!(w.ents[ei].pos, Vec2I { x: 285_000, y: 15_000 });
}

#[test]
fn enemy_on_player_does_not_move() {
    let mut w = World::new();
    spawn_player(&mut w);
    let ei = spawn_enemy_at(&mut w, Vec2I { x: 0, y: 0 }, 1000);
    move_enemies(&mut w, 100).unwrap();
    assert_eq!(w.ents[ei].pos, Vec2I { x: 0, y: 0 });
    assert_eq!(w.ents[ei].sidestep_timer.unwrap().elapsed, 100);
}

#[test]
fn finished_timer_rerolls_and_wraps() {
    let mut w = World::new();
    spawn_player(&mut w);
    let ei = spawn_enemy_at(&mut w, Vec2I { x: 200_000, y: 0 }, 1000);
    w.ents[ei].sidestep_timer =
        Some(Timer { duration: 1000, elapsed: 1000, repeating: true, finished: true });
    move_enemies(&mut w, 100).unwrap();
    let t = w.ents[ei].sidestep_timer.unwrap();
    assert!(t.finished);
    assert_eq!(t.elapsed, 100);
    let m = w.ents[ei].sidestep_mode.unwrap();
    assert!(
        m == SidestepMode::Left || m == SidestepMode::Right || m == SidestepMode::Stationary
    );
}

#[test]
fn move_enemies_without_player_fails() {
    let mut w = World::new();
    spawn_enemy_at(&mut w, Vec2I { x: 0, y: 0 }, 1000);
    assert_eq!(move_enemies(&mut w, 16), Err(SimError::NoPlayer));
}

#[test]
fn spawned_enemy_carries_its_bundle() {
    let mut w = World::new();
    let ei = spawn_enemy(&mut w, 10_000, -20_000);
    let e = &w.ents[ei];
    assert_eq!(e.role, Role::Enemy);
    assert_eq!(e.pos, Vec2I { x: 10_000, y: -20_000 });
    assert_eq!(e.speed, 150_000);
    assert_eq!(e.health, Some(Health { current: 5, max: 5 }));
    let t = e.sidestep_timer.unwrap();
    assert!(t.repeating);
    assert!((850..=1150).contains(&t.duration));
    assert_eq!(w.ents[ei + 1].role, Role::HealthBarBackground);
    assert_eq!(w.ents[ei + 2].role, Role::HealthBar);
    assert_eq!(w.ents[ei + 1].parent, Some(ei));
    assert_eq!(w.ents[ei + 2].parent, Some(ei));
}

#[test]
fn initial_population_is_inside_the_spawn_box() {
    let mut w = World::new();
    spawn_enemies(&mut w);
    assert_eq!(w.ents.len(), 3 * ENEMY_COUNT);
    for k in 0..ENEMY_COUNT {
        let e = &w.ents[3 * k];
        assert_eq!(e.role, Role::Enemy);
        assert!((-400_000..400_000).contains(&e.pos.x));
        assert!((-200_000..200_000).contains(&e.pos.y));
    }
}

#[test]
fn health_bar_geometry_fractions() {
    assert_eq!(health_bar_geometry(5, 5), (60_000, 0));
    assert_eq!(health_bar_geometry(1, 2), (30_000, -15_000));
    assert_eq!(health_bar_geometry(3, 10), (18_000, -21_000));
    assert_eq!(health_bar_geometry(0, 5), (0, -30_000));
    assert_eq!(health_bar_geometry(-2, 5), (0, -30_000));
}

#[test]
fn health_bars_track_owner_health() {
    let mut w = World::new();
    spawn_player(&mut w);
    let ei = spawn_enemy_at(&mut w, Vec2I { x: 100_000, y: 0 }, 1000);
    w.ents[ei].health = Some(Health { current: 2, max: 5 });
    update_health_bars(&mut w);
    let bar = &w.ents[ei + 2];
    assert_eq!(bar.bar_width, 24_000);
    assert_eq!(bar.pos, Vec2I { x: -18_000, y: 40_000 });
    // The background keeps its full width.
    assert_eq!(w.ents[ei + 1].bar_width, 60_000);
}

#[test]
fn damage_skips_stale_targets() {
    let mut w = World::new();
    spawn_player(&mut w);
    let ei = spawn_enemy_at(&mut w, Vec2I { x: 100_000, y: 0 }, 1000);
    w.ents[ei].alive = false;
    w.events.push(DamageEvent { target: ei, amount: 1 });
    handle_damage(&mut w);
    assert_eq!(w.ents[ei].health, Some(Health { current: 5, max: 5 }));
    assert_eq!(w.events.len(), 0);
}

#[test]
fn later_event_on_destroyed_target_is_a_no_op() {
    let mut w = World::new();
    spawn_player(&mut w);
    let ei = spawn_enemy_at(&mut w, Vec2I { x: 100_000, y: 0 }, 1000);
    w.ents[ei].health = Some(Health { current: 1, max: 5 });
    w.events.push(DamageEvent { target: ei, amount: 1 });
    w.events.push(DamageEvent { target: ei, amount: 1 });
    handle_damage(&mut w);
    assert!(!w.ents[ei].alive);
    // The second event of the batch found the target destroyed.
    assert_eq!(w.ents[ei].health, Some(Health { current: 0, max: 5 }));
}
