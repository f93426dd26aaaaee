//! Black holes: fixed-size rotating hazards spawned when two old asteroids
//! fuse; they end the round when the ship touches one.

use crate::geom::{Vec2i, COORD_LIMIT};
use vstd::prelude::*;

verus! {

/// Collision radius of every black hole.
pub const BLACKHOLE_SIZE: i64 = 50_000;

/// Magnitude of the cosmetic rotation step applied per simulation tick.
pub const BLACKHOLE_ROTATION_STEP: i64 = 10;

/// A black hole sitting at a fixed position.
#[derive(Debug, PartialEq, Eq, Structural, Clone, Copy)]
pub struct BlackHole {
    /// Centre of the black hole.
    pub position: Vec2i,
    /// Collision radius.
    pub size: i64,
    /// Rotation angle, in milliradians; cosmetic only, grows without bound.
    pub rotation: i64,
}

impl BlackHole {
    /// A new black hole at the given position, with the fixed size and no
    /// rotation yet.
    pub fn new(position: Vec2i) -> (b: BlackHole)
        ensures
            b == (BlackHole { position, size: BLACKHOLE_SIZE, rotation: 0 }),
    {
        BlackHole { position, size: BLACKHOLE_SIZE, rotation: 0 }
    }

    /// Centre of the black hole.
    pub fn get_position(&self) -> (p: Vec2i)
        ensures
            p == self.position,
    {
        self.position
    }

    /// Collision radius of the black hole.
    pub fn get_size(&self) -> (s: i64)
        ensures
            s == self.size,
    {
        self.size
    }

    /// Advances the cosmetic spin by one step.
    pub fn update_rotation(&mut self)
        requires
            old(self).rotation <= COORD_LIMIT,
        ensures
            *final(self) == (BlackHole {
                rotation: (old(self).rotation + BLACKHOLE_ROTATION_STEP) as i64,
                ..*old(self)
            }),
    {
        self.rotation = self.rotation + BLACKHOLE_ROTATION_STEP;
    }
}

} // verus!
