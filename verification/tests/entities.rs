//! Entity-level behaviour: construction, movement, splitting and the
//! collision tests of each entity.

use stellar_core::asteroid::{Asteroid, AsteroidShape, FusionPolicy};
use stellar_core::blackhole::BlackHole;
use stellar_core::geom::{Bounds, Vec2i};
use stellar_core::missile::Missile;
use stellar_core::spaceship::{Spaceship, SPACE_SHIP_SIZE};
use stellar_core::stellarobject::StellarObject;

fn wide_bounds() -> Bounds {
    Bounds::new(1_000_000, 1_000_000)
}

#[test]
fn test_asteroid_new() {
    let asteroid: Asteroid = Asteroid::new(
        Vec2i::new(100_000, 100_000),
        Vec2i::new(1_000, 500),
        AsteroidShape::Large,
        70_000,
        0,
    );
    assert_eq!(asteroid.get_position(), Vec2i::new(100_000, 100_000));
}

#[test]
fn test_asteroid_split() {
    let asteroid_test = Asteroid::new(
        Vec2i::new(100_000, 100_000),
        Vec2i::new(0, 0),
        AsteroidShape::Large,
        70_000,
        0,
    );
    let asteroids_test = asteroid_test.split(0);
    assert_eq!(asteroids_test.len(), 2);
}

#[test]
fn test_asteroid_is_collide_round() {
    let asteroid_test_1 = Asteroid::new(
        Vec2i::new(0, 0),
        Vec2i::new(1_000, 0),
        AsteroidShape::Small,
        30_000,
        0,
    );
    let asteroid_test_2 = Asteroid::new(
        Vec2i::new(10_000, 20_000),
        Vec2i::new(0, 1_000),
        AsteroidShape::Small,
        30_000,
        0,
    );
    assert_eq!(asteroid_test_1.is_collide_round(&asteroid_test_2), true);
}

#[test]
fn test_asteroid_move_asteroid() {
    let mut asteroid_test = Asteroid::new(
        Vec2i::new(100_000, 100_000),
        Vec2i::new(1_000, 0),
        AsteroidShape::Large,
        70_000,
        0,
    );
    let new_rotation_value = if asteroid_test.get_rotation() > 0 {
        asteroid_test.get_rotation() + 10
    } else {
        asteroid_test.get_rotation() - 10
    };
    asteroid_test.move_asteroid(true, 1_000, wide_bounds());
    assert_eq!(asteroid_test.get_rotation(), new_rotation_value);
}

#[test]
fn test_blackhole_creation() {
    let mut asteroids_test = Vec::new();
    let asteroid1_test = Asteroid::new(
        Vec2i::new(0, 0),
        Vec2i::new(1_000, 0),
        AsteroidShape::Small,
        70_000,
        0,
    );
    let asteroid2_test = Asteroid::new(
        Vec2i::new(10_000, 20_000),
        Vec2i::new(1_000, 0),
        AsteroidShape::Small,
        70_000,
        0,
    );
    asteroids_test.push(asteroid1_test);
    asteroids_test.push(asteroid2_test);

    let mut blackholes_test: Vec<BlackHole> = Vec::new();

    Asteroid::what_collide_asteroids(
        &mut asteroids_test,
        &mut blackholes_test,
        10_000,
        FusionPolicy::Always,
    );
    assert_eq!(blackholes_test.len(), 1);
}

#[test]
fn test_missile_new() {
    let missile: Missile = Missile::new(
        Vec2i::new(100_000, 100_000),
        Vec2i::new(1_000, 1_000),
        5_000,
        2_000,
    );
    assert_eq!(missile.get_position(), Vec2i::new(100_000, 100_000));
}

#[test]
fn test_collide() {
    let missile: Missile = Missile::new(
        Vec2i::new(100_000, 100_000),
        Vec2i::new(1_000, 1_000),
        5_000,
        2_000,
    );
    let asteroid: Asteroid = Asteroid::new(
        Vec2i::new(100_000, 100_000),
        Vec2i::new(1_000, 1_000),
        AsteroidShape::Large,
        2_000,
        0,
    );
    assert_eq!(missile.is_collide_asteroid(&asteroid), true);
}

#[test]
fn test_get_end_position() {
    let missile: Missile = Missile::new(
        Vec2i::new(100_000, 100_000),
        Vec2i::new(1_000, 1_000),
        5_000,
        2_000,
    );
    assert_eq!(missile.get_end_position(), Vec2i::new(105_000, 105_000));
}

#[test]
fn test_spaceship_new() {
    let spaceship = Spaceship::new(Bounds::new(440_000, 660_000));
    assert_eq!(spaceship.get_position(), Vec2i::new(220_000, 330_000));
    assert_eq!(spaceship.get_size(), SPACE_SHIP_SIZE);
    assert_eq!(spaceship.get_rotation(), 0);
    assert_eq!(spaceship.shield, 3);
    assert_eq!(spaceship.last_collision_time, -2_000);
    assert_eq!(spaceship.score, 0);
}

#[test]
fn test_spaceship_collision_asteroid() {
    let spaceship_test = Spaceship::new(Bounds::new(400_000, 600_000));
    assert_eq!(spaceship_test.get_position(), Vec2i::new(200_000, 300_000));

    let asteroid_test = Asteroid {
        position: Vec2i::new(220_000, 330_000),
        speed: Vec2i::new(0, 0),
        shape: AsteroidShape::Large,
        size: 20_000,
        rotation: 0,
        birth_time: 0,
    };
    assert_eq!(spaceship_test.collision(&asteroid_test), true);
}

#[test]
fn test_spaceship_collision_blackhole() {
    let spaceship_test = Spaceship::new(Bounds::new(400_000, 600_000));

    let blackhole_test = BlackHole {
        position: Vec2i::new(220_000, 330_000),
        size: 20_000,
        rotation: 0,
    };
    assert_eq!(spaceship_test.collision_blackhole(&blackhole_test), true);
}

#[test]
fn test_blackhole_new_and_rotation() {
    let mut blackhole = BlackHole::new(Vec2i::new(100_000, 100_000));
    assert_eq!(blackhole.get_position(), Vec2i::new(100_000, 100_000));
    assert_eq!(blackhole.get_size(), 50_000);
    assert_eq!(blackhole.rotation, 0);
    blackhole.update_rotation();
    assert_eq!(blackhole.rotation, 10);
}

#[test]
fn test_missile_movement_ignores_factor() {
    let mut missile = Missile::new(Vec2i::new(1_000, 2_000), Vec2i::new(3_000, -500), 5_000, 2_000);
    missile.move_missile();
    assert_eq!(missile.get_position(), Vec2i::new(4_000, 1_500));
    assert_eq!(missile.get_speed(), Vec2i::new(3_000, -500));
}

#[test]
fn test_clear_missiles_culls_out_of_bounds() {
    let bounds = Bounds::new(100_000, 100_000);
    let mut missiles = vec![
        Missile::new(Vec2i::new(50_000, 50_000), Vec2i::new(0, 0), 5_000, 2_000),
        Missile::new(Vec2i::new(-1, 50_000), Vec2i::new(0, 0), 5_000, 2_000),
        Missile::new(Vec2i::new(100_000, 100_000), Vec2i::new(0, 0), 5_000, 2_000),
        Missile::new(Vec2i::new(50_000, 100_001), Vec2i::new(0, 0), 5_000, 2_000),
    ];
    Missile::clear_missiles(&mut missiles, bounds);
    assert_eq!(missiles.len(), 2);
    assert_eq!(missiles[0].get_position(), Vec2i::new(50_000, 50_000));
    assert_eq!(missiles[1].get_position(), Vec2i::new(100_000, 100_000));
}

#[test]
fn test_spawn_policy() {
    let bounds = Bounds::new(800_000, 600_000);
    let mut asteroids: Vec<Asteroid> = Vec::new();
    let mut last_add: i64 = 0;
    let added = Asteroid::push_or_dont(&mut asteroids, &mut last_add, 10_000, 5_000, bounds);
    assert!(added);
    assert_eq!(asteroids.len(), 1);
    assert_eq!(last_add, 10_000);
    let a = &asteroids[0];
    assert!(a.get_position().x >= 0 && a.get_position().x <= 800_000);
    assert!(a.get_position().y >= 0 && a.get_position().y <= 600_000);
    // The coordinate toward the chosen edge lies within half the asteroid's
    // size to its full size of that edge.
    let size = a.get_size();
    let (x, y) = (a.get_position().x, a.get_position().y);
    let near_top = y >= size / 2 && y <= size;
    let near_right = x >= 800_000 - size && x <= 800_000 - size / 2;
    let near_bottom = y >= 600_000 - size && y <= 600_000 - size / 2;
    let near_left = x >= size / 2 && x <= size;
    assert!(near_top || near_right || near_bottom || near_left);
    let again = Asteroid::push_or_dont(&mut asteroids, &mut last_add, 10_000, 5_000, bounds);
    assert!(!again);
    assert_eq!(asteroids.len(), 1);
}

#[test]
fn test_missile_strike_splits_and_scores() {
    let mut missiles = vec![Missile::new(
        Vec2i::new(100_000, 100_000),
        Vec2i::new(1_000, 0),
        5_000,
        2_000,
    )];
    let mut asteroids = vec![Asteroid::new(
        Vec2i::new(102_000, 100_000),
        Vec2i::new(0, 0),
        AsteroidShape::Large,
        60_000,
        0,
    )];
    let mut ship = Spaceship::new(Bounds::new(400_000, 600_000));
    let booms = Missile::what_collide_missile(&mut missiles, &mut asteroids, &mut ship, 0);
    assert_eq!(booms, 1);
    assert_eq!(missiles.len(), 0);
    assert_eq!(asteroids.len(), 2);
    for frag in &asteroids {
        assert_eq!(frag.get_shape(), AsteroidShape::Medium);
        assert_eq!(frag.get_position(), Vec2i::new(102_000, 100_000));
    }
    assert_eq!(ship.score, 25);
}
