//! Concrete checks of the library's stated laws: wrap behaviour, collision
//! symmetry and boundaries, split conservation, the shield cooldown, fusion
//! in a forced run, the score table, and the randomness gateway.

use stellar_core::asteroid::{Asteroid, AsteroidShape, FusionPolicy};
use stellar_core::geom::{bound_to, Bounds, Vec2i};
use stellar_core::missile::Missile;
use stellar_core::rng::{rand_bool, rand_i64_range, random_unit_dir};
use stellar_core::round::{round_won, CLASSIC_WIN_TIME_MS};
use stellar_core::score::{add_score, get_score, increase_score, score_for_shape};
use stellar_core::spaceship::Spaceship;
use stellar_core::stellarobject::StellarObject;

#[test]
fn test_wrap_policy() {
    // Inside the range: unchanged.
    assert_eq!(bound_to(40, 100), 40);
    assert_eq!(bound_to(0, 100), 0);
    assert_eq!(bound_to(100, 100), 100);
    // Above the range: reduced by the bound, and idempotent from there.
    assert_eq!(bound_to(150, 100), 50);
    assert_eq!(bound_to(bound_to(150, 100), 100), 50);
    // Below zero: exactly `max - coord`, not a modular wrap.
    assert_eq!(bound_to(-30, 100), 130);
}

#[test]
fn test_collision_symmetry() {
    let a = Asteroid::new(
        Vec2i::new(0, 0),
        Vec2i::new(0, 0),
        AsteroidShape::Small,
        25_000,
        0,
    );
    let b = Asteroid::new(
        Vec2i::new(30_000, 40_000),
        Vec2i::new(0, 0),
        AsteroidShape::Medium,
        35_000,
        0,
    );
    assert_eq!(a.is_collide_round(&b), b.is_collide_round(&a));
    assert!(a.is_collide_round(&b));
    let far = Asteroid::new(
        Vec2i::new(900_000, 0),
        Vec2i::new(0, 0),
        AsteroidShape::Small,
        25_000,
        0,
    );
    assert_eq!(a.is_collide_round(&far), far.is_collide_round(&a));
    assert!(!a.is_collide_round(&far));
}

#[test]
fn test_split_conservation() {
    let large = Asteroid::new(
        Vec2i::new(100_000, 100_000),
        Vec2i::new(0, 0),
        AsteroidShape::Large,
        70_000,
        0,
    );
    let mediums = large.split(0);
    assert_eq!(mediums.len(), 2);
    for m in &mediums {
        assert_eq!(m.get_shape(), AsteroidShape::Medium);
        assert_eq!(m.get_position(), Vec2i::new(100_000, 100_000));
        assert!(m.get_size() >= 30_000 && m.get_size() <= 50_000);
    }
    let medium = Asteroid::new(
        Vec2i::new(5_000, 6_000),
        Vec2i::new(0, 0),
        AsteroidShape::Medium,
        40_000,
        0,
    );
    let smalls = medium.split(0);
    assert_eq!(smalls.len(), 2);
    for s in &smalls {
        assert_eq!(s.get_shape(), AsteroidShape::Small);
        assert_eq!(s.get_position(), Vec2i::new(5_000, 6_000));
        assert!(s.get_size() >= 20_000 && s.get_size() <= 30_000);
    }
    let small = Asteroid::new(
        Vec2i::new(0, 0),
        Vec2i::new(0, 0),
        AsteroidShape::Small,
        20_000,
        0,
    );
    assert_eq!(small.split(0).len(), 0);
}

#[test]
fn test_missile_boundary_cases() {
    // Closest approach exactly the radius: the boundary is inclusive.
    let grazing = Missile::new(Vec2i::new(0, 0), Vec2i::new(1_000, 0), 5_000, 2_000);
    let touched = Asteroid::new(
        Vec2i::new(2_000, 1_000),
        Vec2i::new(0, 0),
        AsteroidShape::Small,
        1_000,
        0,
    );
    assert!(grazing.is_collide_asteroid(&touched));
    // The infinite line passes through the centre, but the clamped segment
    // stays away: no collision.
    let behind = Asteroid::new(
        Vec2i::new(-3_000, 0),
        Vec2i::new(0, 0),
        AsteroidShape::Small,
        1_000,
        0,
    );
    assert!(!grazing.is_collide_asteroid(&behind));
    // Through the centre: always a hit.
    let centred = Asteroid::new(
        Vec2i::new(2_500, 0),
        Vec2i::new(0, 0),
        AsteroidShape::Small,
        1_000,
        0,
    );
    assert!(grazing.is_collide_asteroid(&centred));
    // Just past the radius: no hit.
    let missed = Asteroid::new(
        Vec2i::new(2_000, 1_001),
        Vec2i::new(0, 0),
        AsteroidShape::Small,
        1_000,
        0,
    );
    assert!(!grazing.is_collide_asteroid(&missed));
}

#[test]
fn test_shield_cooldown() {
    let mut ship = Spaceship::new(Bounds::new(400_000, 600_000));
    assert_eq!(ship.shield, 3);
    // The first hit counts: the fresh ship's last collision is backdated.
    assert_eq!(ship.check_shield(0), false);
    assert_eq!(ship.shield, 2);
    // A second hit within the two-second window is absorbed.
    assert_eq!(ship.check_shield(1_999), false);
    assert_eq!(ship.shield, 2);
    // After the window the shield drops again.
    assert_eq!(ship.check_shield(2_000), false);
    assert_eq!(ship.shield, 1);
    // The hit that empties the shield reports the defeat.
    assert_eq!(ship.check_shield(4_000), true);
    assert_eq!(ship.shield, 0);
}

#[test]
fn test_forced_fusion() {
    let mut asteroids = vec![
        Asteroid::new(Vec2i::new(0, 0), Vec2i::new(0, 0), AsteroidShape::Small, 25_000, 0),
        Asteroid::new(Vec2i::new(0, 0), Vec2i::new(0, 0), AsteroidShape::Small, 25_000, 0),
    ];
    let mut blackholes = Vec::new();
    Asteroid::what_collide_asteroids(&mut asteroids, &mut blackholes, 2_000, FusionPolicy::Always);
    // Fusion consumes both asteroids, adds no fragments, and leaves exactly
    // one black hole at the first asteroid's position.
    assert_eq!(blackholes.len(), 1);
    assert_eq!(asteroids.len(), 0);
    assert_eq!(blackholes[0].get_position(), Vec2i::new(0, 0));
    assert_eq!(blackholes[0].get_size(), 50_000);
}

#[test]
fn test_forced_split_pass() {
    let mut asteroids = vec![
        Asteroid::new(Vec2i::new(0, 0), Vec2i::new(0, 0), AsteroidShape::Small, 25_000, 0),
        Asteroid::new(Vec2i::new(0, 0), Vec2i::new(0, 0), AsteroidShape::Small, 25_000, 0),
    ];
    let mut blackholes = Vec::new();
    Asteroid::what_collide_asteroids(&mut asteroids, &mut blackholes, 2_000, FusionPolicy::Never);
    // A split of two small asteroids destroys both and yields nothing.
    assert_eq!(blackholes.len(), 0);
    assert_eq!(asteroids.len(), 0);
}

#[test]
fn test_young_asteroids_do_not_resolve() {
    let mut asteroids = vec![
        Asteroid::new(Vec2i::new(0, 0), Vec2i::new(0, 0), AsteroidShape::Small, 25_000, 0),
        Asteroid::new(Vec2i::new(0, 0), Vec2i::new(0, 0), AsteroidShape::Small, 25_000, 0),
    ];
    let mut blackholes = Vec::new();
    // Both asteroids are younger than the maturity age: nothing resolves.
    Asteroid::what_collide_asteroids(&mut asteroids, &mut blackholes, 500, FusionPolicy::Always);
    assert_eq!(blackholes.len(), 0);
    assert_eq!(asteroids.len(), 2);
}

#[test]
fn test_score_table() {
    assert_eq!(score_for_shape(AsteroidShape::Large), 25);
    assert_eq!(score_for_shape(AsteroidShape::Medium), 50);
    assert_eq!(score_for_shape(AsteroidShape::Small), 100);
    let a = Asteroid::new(
        Vec2i::new(7_000, 8_000),
        Vec2i::new(100, 200),
        AsteroidShape::Small,
        12_345,
        99,
    );
    assert_eq!(increase_score(&a), 100);
    let mut ship = Spaceship::new(Bounds::new(400_000, 600_000));
    assert_eq!(get_score(&ship), 0);
    add_score(&mut ship, 150);
    assert_eq!(get_score(&ship), 150);
}

#[test]
fn test_randomness_gateway() {
    // A one-value range pins the sample.
    assert_eq!(rand_i64_range(7, 7), 7);
    for _ in 0..50 {
        let v = rand_i64_range(-3, 3);
        assert!((-3..=3).contains(&v));
        let _ = rand_bool();
        let d = random_unit_dir();
        assert!(d.x >= -1_000 && d.x <= 1_000);
        assert!(d.y >= -1_000 && d.y <= 1_000);
        assert!(d.x * d.x + d.y * d.y >= 499_849);
        assert!(d.x * d.x + d.y * d.y <= 2_000_000);
    }
}

#[test]
fn test_round_won() {
    assert!(round_won(0, 11_000, CLASSIC_WIN_TIME_MS));
    assert!(!round_won(1, 11_000, CLASSIC_WIN_TIME_MS));
    assert!(!round_won(0, 9_000, CLASSIC_WIN_TIME_MS));
}

#[test]
fn test_shoot_gates() {
    assert!(Missile::do_i_shoot_classic(true, 0, 300));
    assert!(!Missile::do_i_shoot_classic(true, 0, 200));
    assert!(!Missile::do_i_shoot_classic(false, 0, 300));
    assert!(Missile::do_i_shoot_modern(true, 1_000, 1_300));
    assert!(!Missile::do_i_shoot_modern(false, 1_000, 1_300));
}

#[test]
fn test_missile_aim_at_pointer() {
    let ship = Spaceship::new(Bounds::new(400_000, 600_000));
    // Pointer straight to the right of the ship: the missile flies right.
    let m = Missile::new_missile_modern(&ship, 5_000, Vec2i::new(300_000, 300_000));
    assert_eq!(m.get_position(), Vec2i::new(200_000, 300_000));
    assert_eq!(m.get_speed(), Vec2i::new(5_000, 0));
    // Pointer on the ship: the fallback points right as well.
    let fallback = Missile::new_missile_modern(&ship, 5_000, Vec2i::new(200_000, 300_000));
    assert_eq!(fallback.get_speed(), Vec2i::new(5_000, 0));
}
