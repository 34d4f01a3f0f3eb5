use shooter_core::clamp_coord;
use shooter_core::POS_LIMIT;
use shooter_core::geometry::Vec2I;
use shooter_core::geometry::isqrt;
use shooter_core::geometry::normalize;
use shooter_core::geometry::scale_div;
use shooter_core::geometry::vec_len;
use shooter_core::collision::overlaps;
use shooter_core::components::Collider;
use shooter_core::timer::Timer;

#[test]
fn isqrt_small_values() {
    assert_eq!(isqrt(0), 0);
    assert_eq!(isqrt(1), 1);
    assert_eq!(isqrt(2), 1);
    assert_eq!(isqrt(3), 1);
    assert_eq!(isqrt(4), 2);
    assert_eq!(isqrt(99), 9);
    assert_eq!(isqrt(100), 10);
}

#[test]
fn isqrt_large_values() {
    assert_eq!(isqrt(1_000_000_000_000_000_000_000_000u128), 1_000_000_000_000);
    assert_eq!(isqrt(u64::MAX as u128), 4_294_967_295);
}

#[test]
fn vec_len_pythagorean() {
    assert_eq!(vec_len(Vec2I { x: 3000, y: 4000 }), 5000);
    assert_eq!(vec_len(Vec2I { x: -3000, y: 4000 }), 5000);
    assert_eq!(vec_len(Vec2I { x: 0, y: 0 }), 0);
    assert_eq!(vec_len(Vec2I { x: 0, y: -7 }), 7);
}

#[test]
fn normalize_unit_directions() {
    let d = normalize(Vec2I { x: 3000, y: 4000 }).unwrap();
    assert_eq!(d, Vec2I { x: 600, y: 800 });
    let d = normalize(Vec2I { x: -5, y: 0 }).unwrap();
    assert_eq!(d, Vec2I { x: -1000, y: 0 });
    let d = normalize(Vec2I { x: 1000, y: 1000 }).unwrap();
    assert_eq!(d, Vec2I { x: 707, y: 707 });
}

#[test]
fn normalize_zero_is_guarded() {
    assert!(normalize(Vec2I { x: 0, y: 0 }).is_none());
}

#[test]
fn scale_div_rounds_toward_zero() {
    assert_eq!(scale_div(7, 3, 2), 10);
    assert_eq!(scale_div(-7, 3, 2), -10);
    assert_eq!(scale_div(-1, 1, 2), 0);
    assert_eq!(scale_div(0, 5, 3), 0);
}

#[test]
fn clamp_coord_bounds() {
    assert_eq!(clamp_coord(0), 0);
    assert_eq!(clamp_coord(POS_LIMIT + 5), POS_LIMIT);
    assert_eq!(clamp_coord(-POS_LIMIT - 5), -POS_LIMIT);
    assert_eq!(clamp_coord(123_456), 123_456);
}

#[test]
fn overlaps_is_symmetric_on_samples() {
    let ca = Collider { hx: 25_000, hy: 25_000 };
    let cb = Collider { hx: 5_000, hy: 5_000 };
    let pairs = [
        (Vec2I { x: 0, y: 0 }, Vec2I { x: 29_000, y: 0 }),
        (Vec2I { x: 0, y: 0 }, Vec2I { x: 31_000, y: 0 }),
        (Vec2I { x: -10, y: 77 }, Vec2I { x: 20_000, y: -20_000 }),
    ];
    for (pa, pb) in pairs {
        assert_eq!(overlaps(pa, ca, pb, cb), overlaps(pb, cb, pa, ca));
    }
}

#[test]
fn overlaps_needs_both_axes_and_is_strict() {
    let c = Collider { hx: 25_000, hy: 25_000 };
    // Touching edges do not overlap: the test is strict.
    assert!(!overlaps(Vec2I { x: 0, y: 0 }, c, Vec2I { x: 50_000, y: 0 }, c));
    assert!(overlaps(Vec2I { x: 0, y: 0 }, c, Vec2I { x: 49_999, y: 0 }, c));
    // Overlap on one axis only is no overlap.
    assert!(!overlaps(Vec2I { x: 0, y: 0 }, c, Vec2I { x: 10_000, y: 60_000 }, c));
}

#[test]
fn timer_finishes_and_wraps_with_residual() {
    let mut t = Timer::new(500, true);
    assert!(!t.finished());
    t.tick(499);
    assert!(!t.finished());
    assert_eq!(t.elapsed, 499);
    t.tick(1);
    assert!(t.finished());
    assert_eq!(t.elapsed, 0);
    t.tick(300);
    assert!(!t.finished());
    t.tick(300);
    // 600 over a 500 duration: finished, and the 100 overflow is kept.
    assert!(t.finished());
    assert_eq!(t.elapsed, 100);
}

#[test]
fn timer_one_shot_saturates() {
    let mut t = Timer::new(500, false);
    t.tick(700);
    assert!(t.finished());
    assert_eq!(t.elapsed, 500);
    t.tick(100);
    assert!(t.finished());
    assert_eq!(t.elapsed, 500);
}
