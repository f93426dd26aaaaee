//! Tick-level scenarios for the two game modes.

use stellar_core::asteroid::{Asteroid, AsteroidShape, FusionPolicy};
use stellar_core::blackhole::BlackHole;
use stellar_core::geom::{Bounds, Vec2i};
use stellar_core::missile::Missile;
use stellar_core::round::{update_classic, update_modern, ClassicInputs, ModernInputs};
use stellar_core::spaceship::Spaceship;
use stellar_core::stellarobject::StellarObject;

fn play_area() -> Bounds {
    Bounds::new(800_000, 600_000)
}

#[test]
fn test_update_classic_quiet_tick() {
    let bounds = play_area();
    let mut asteroids: Vec<Asteroid> = Vec::new();
    let mut blackholes: Vec<BlackHole> = Vec::new();
    let mut last_add: i64 = 0;
    let mut spaceship = Spaceship::new(bounds);
    let mut last_shoot: i64 = 0;
    let mut missiles: Vec<Missile> = Vec::new();
    let inputs = ClassicInputs {
        up: false,
        down: false,
        left: false,
        right: false,
        fire: false,
        facing: Vec2i::new(0, -1_000),
        facing_after_turn: Vec2i::new(0, -1_000),
    };
    // Too soon after the last spawn for a new asteroid, no input held.
    let outcome = update_classic(
        &mut asteroids,
        &mut blackholes,
        &mut last_add,
        &mut spaceship,
        100,
        &mut last_shoot,
        &mut missiles,
        inputs,
        1_000,
        1_000,
        bounds,
    );
    assert!(!outcome.defeat);
    assert!(!outcome.shot);
    assert_eq!(outcome.booms, 0);
    assert!(!outcome.shield_hit);
    assert_eq!(asteroids.len(), 0);
    assert_eq!(missiles.len(), 0);
    assert_eq!(blackholes.len(), 0);
    assert_eq!(last_add, 0);
    assert_eq!(spaceship.shield, 3);
    assert_eq!(spaceship.get_position(), Vec2i::new(400_000, 300_000));
}

#[test]
fn test_update_classic_spawn_and_shot() {
    let bounds = play_area();
    let mut asteroids: Vec<Asteroid> = Vec::new();
    let mut blackholes: Vec<BlackHole> = Vec::new();
    let mut last_add: i64 = 0;
    let mut spaceship = Spaceship::new(bounds);
    let mut last_shoot: i64 = 0;
    let mut missiles: Vec<Missile> = Vec::new();
    let inputs = ClassicInputs {
        up: false,
        down: false,
        left: false,
        right: false,
        fire: true,
        facing: Vec2i::new(0, -1_000),
        facing_after_turn: Vec2i::new(0, -1_000),
    };
    let outcome = update_classic(
        &mut asteroids,
        &mut blackholes,
        &mut last_add,
        &mut spaceship,
        10_000,
        &mut last_shoot,
        &mut missiles,
        inputs,
        1_000,
        1_000,
        bounds,
    );
    assert!(!outcome.defeat);
    assert!(outcome.shot);
    assert_eq!(last_shoot, 10_000);
    assert_eq!(last_add, 10_000);
    assert_eq!(asteroids.len(), 1);
    // The fresh missile flies straight up from the ship's centre.
    assert_eq!(missiles.len(), 1);
    assert_eq!(missiles[0].get_speed(), Vec2i::new(0, -5_000));
    assert_eq!(blackholes.len(), 0);
}

#[test]
fn test_update_modern_forced_fusion_tick() {
    let bounds = play_area();
    // Two mature small asteroids sitting on each other, far from the ship.
    let mut asteroids = vec![
        Asteroid::new(Vec2i::new(50_000, 50_000), Vec2i::new(0, 0), AsteroidShape::Small, 25_000, 0),
        Asteroid::new(Vec2i::new(50_000, 50_000), Vec2i::new(0, 0), AsteroidShape::Small, 25_000, 0),
    ];
    let mut blackholes: Vec<BlackHole> = Vec::new();
    let mut last_add: i64 = 10_000;
    let mut spaceship = Spaceship::new(bounds);
    let mut last_shoot: i64 = 10_000;
    let mut missiles: Vec<Missile> = Vec::new();
    let inputs = ModernInputs {
        up: false,
        down: false,
        left: false,
        right: false,
        fire: false,
        mouse: Vec2i::new(400_000, 0),
    };
    let outcome = update_modern(
        &mut asteroids,
        &mut blackholes,
        &mut last_add,
        &mut spaceship,
        10_000,
        &mut last_shoot,
        &mut missiles,
        inputs,
        1_000,
        0,
        bounds,
        FusionPolicy::Always,
    );
    assert!(!outcome.defeat);
    assert_eq!(blackholes.len(), 1);
    assert_eq!(asteroids.len(), 0);
    // The new hole has already taken its first cosmetic rotation step.
    assert_eq!(blackholes[0].rotation, 10);
    assert_eq!(blackholes[0].get_position(), Vec2i::new(50_000, 50_000));
}

#[test]
fn test_update_modern_blackhole_defeat() {
    let bounds = play_area();
    let mut asteroids: Vec<Asteroid> = Vec::new();
    // A black hole sitting on the ship's spawn point ends the round.
    let mut blackholes = vec![BlackHole::new(Vec2i::new(400_000, 300_000))];
    let mut last_add: i64 = 10_000;
    let mut spaceship = Spaceship::new(bounds);
    let mut last_shoot: i64 = 10_000;
    let mut missiles: Vec<Missile> = Vec::new();
    let inputs = ModernInputs {
        up: false,
        down: false,
        left: false,
        right: false,
        fire: false,
        mouse: Vec2i::new(0, 0),
    };
    let outcome = update_modern(
        &mut asteroids,
        &mut blackholes,
        &mut last_add,
        &mut spaceship,
        10_000,
        &mut last_shoot,
        &mut missiles,
        inputs,
        1_000,
        0,
        bounds,
        FusionPolicy::Never,
    );
    assert!(outcome.defeat);
    assert!(!outcome.shield_hit);
    assert_eq!(spaceship.shield, 3);
}
