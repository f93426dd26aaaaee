//! Scoring: the value of each asteroid size class and the ship's running
//! total. Smaller asteroids are harder to hit and worth more.

use crate::asteroid::{Asteroid, AsteroidShape};
use crate::spaceship::Spaceship;
use vstd::prelude::*;

verus! {

/// Points awarded for destroying an asteroid of each shape.
pub open spec fn score_for_shape_spec(shape: AsteroidShape) -> int {
    match shape {
        AsteroidShape::Large => 25,
        AsteroidShape::Medium => 50,
        AsteroidShape::Small => 100,
    }
}

/// Points awarded for destroying an asteroid of the given shape: 25 for
/// large, 50 for medium, 100 for small.
pub fn score_for_shape(shape: AsteroidShape) -> (points: u32)
    ensures
        points == score_for_shape_spec(shape),
{
    match shape {
        AsteroidShape::Large => 25,
        AsteroidShape::Medium => 50,
        AsteroidShape::Small => 100,
    }
}

/// The ship's accumulated score.
pub fn get_score(spaceship: &Spaceship) -> (score: u32)
    ensures
        score == spaceship.score,
{
    spaceship.score
}

/// Adds points to the ship's score.
pub fn add_score(spaceship: &mut Spaceship, score: u32)
    requires
        old(spaceship).score + score <= u32::MAX,
    ensures
        *final(spaceship) == (Spaceship {
            score: (old(spaceship).score + score) as u32,
            ..*old(spaceship)
        }),
{
    spaceship.score = spaceship.score + score;
}

/// The points a destroyed asteroid is worth.
pub fn increase_score(asteroid: &Asteroid) -> (points: u32)
    ensures
        points == score_for_shape_spec(asteroid.shape),
{
    score_for_shape(asteroid.get_shape())
}

} // verus!
