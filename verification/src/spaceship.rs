//! The player's ship: two thrust models, the toroidal wrap, circle-overlap
//! collision tests against asteroids and black holes, and the shield state
//! machine with its invulnerability cooldown.

use crate::asteroid::{asteroid_geom_ok, Asteroid};
use crate::blackhole::BlackHole;
use crate::geom::{
    bound_pos, bound_pos_spec, check_circles_overlap, circles_overlap, scale_div, scale_div_spec,
    scale_to_unit, unit_toward, vec_bounded, Bounds, Vec2i, COORD_LIMIT, POSITION_LIMIT, SCALE,
    TIME_LIMIT,
};
use crate::stellarobject::StellarObject;
use vstd::prelude::*;

verus! {

/// Collision radius of the ship.
pub const SPACE_SHIP_SIZE: i64 = 20_000;

/// Thrust added to the speed per tick of held input.
pub const SPACE_SHIP_ACCELERATION: i64 = 180;

/// Numerator of the multiplicative speed decay applied every tick (over
/// `SCALE`).
pub const SPACE_SHIP_DECELERATION: i64 = 990;

/// Rotation applied per tick of held turn input, in milliradians.
pub const SPACE_SHIP_TURN: i64 = 50;

/// Invulnerability window after a shield hit, in milliseconds.
pub const SHIELD_COOLDOWN_MS: i64 = 2000;

/// Number of shield points a fresh ship carries.
pub const SHIELD_START: u32 = 3;

/// A speed bound that the movement models preserve: decay balances thrust
/// well below this magnitude.
pub const SHIP_SPEED_LIMIT: i64 = 18_000;

/// The player's ship.
#[derive(Debug, PartialEq, Eq, Structural, Clone, Copy)]
pub struct Spaceship {
    /// Centre of the ship.
    pub position: Vec2i,
    /// Displacement per simulation tick.
    pub speed: Vec2i,
    /// Collision radius.
    pub size: i64,
    /// Facing angle, in milliradians.
    pub rotation: i64,
    /// Shield points left; the round is lost when this reaches zero.
    pub shield: u32,
    /// Clock value of the last shield hit, in milliseconds.
    pub last_collision_time: i64,
    /// Accumulated score.
    pub score: u32,
}

/// The position and size are small enough for the exact collision test.
pub open spec fn ship_geom_ok(s: Spaceship) -> bool {
    vec_bounded(s.position) && 0 <= s.size <= COORD_LIMIT / 2
}

/// The black hole's position and size are small enough for the exact
/// collision test.
pub open spec fn blackhole_geom_ok(b: BlackHole) -> bool {
    vec_bounded(b.position) && 0 <= b.size <= COORD_LIMIT / 2
}

/// The disc at `pos` with radius `size` overlaps some asteroid in `asts`.
pub open spec fn hits_any_asteroid(pos: Vec2i, size: i64, asts: Seq<Asteroid>) -> bool {
    exists|i: int|
        0 <= i < asts.len() && circles_overlap(pos, size, #[trigger] asts[i].position, asts[i].size)
}

/// The disc at `pos` with radius `size` overlaps some black hole in `holes`.
pub open spec fn hits_any_hole(pos: Vec2i, size: i64, holes: Seq<BlackHole>) -> bool {
    exists|i: int|
        0 <= i < holes.len() && circles_overlap(
            pos,
            size,
            #[trigger] holes[i].position,
            holes[i].size,
        )
}

/// Thrust of the classic control model: forward or backward along the
/// supplied facing direction, scaled by the acceleration constant.
pub open spec fn classic_thrust_spec(facing: Vec2i, up: bool, down: bool) -> Vec2i {
    if up && !down {
        Vec2i {
            x: scale_div_spec(facing.x * SPACE_SHIP_ACCELERATION) as i64,
            y: scale_div_spec(facing.y * SPACE_SHIP_ACCELERATION) as i64,
        }
    } else if down && !up {
        Vec2i {
            x: scale_div_spec(-facing.x * SPACE_SHIP_ACCELERATION) as i64,
            y: scale_div_spec(-facing.y * SPACE_SHIP_ACCELERATION) as i64,
        }
    } else {
        Vec2i { x: 0, y: 0 }
    }
}

/// Thrust of the modern control model: one of eight directions, scaled by
/// the acceleration constant.
pub open spec fn modern_thrust_spec(up: bool, down: bool, left: bool, right: bool) -> Vec2i {
    let a = SPACE_SHIP_ACCELERATION;
    let m = (-SPACE_SHIP_ACCELERATION) as i64;
    match (up, down, left, right) {
        (true, false, true, false) => Vec2i { x: m, y: m },
        (true, false, false, true) => Vec2i { x: a, y: m },
        (false, true, true, false) => Vec2i { x: m, y: a },
        (false, true, false, true) => Vec2i { x: a, y: a },
        (true, false, false, false) => Vec2i { x: 0, y: m },
        (false, true, false, false) => Vec2i { x: 0, y: a },
        (false, false, true, false) => Vec2i { x: m, y: 0 },
        (false, false, false, true) => Vec2i { x: a, y: 0 },
        _ => Vec2i { x: 0, y: 0 },
    }
}

/// One speed component after thrust and the multiplicative decay.
pub open spec fn decel_spec(v: int) -> int {
    scale_div_spec(v * SPACE_SHIP_DECELERATION)
}

/// The speed after one movement step: thrust added, then the decay.
pub open spec fn vel_step_spec(speed: Vec2i, thrust: Vec2i) -> Vec2i {
    Vec2i {
        x: decel_spec(speed.x + thrust.x) as i64,
        y: decel_spec(speed.y + thrust.y) as i64,
    }
}

/// The rotation after one tick of the classic turn keys.
pub open spec fn turn_spec(rotation: int, left: bool, right: bool) -> int {
    if left && !right {
        rotation - SPACE_SHIP_TURN
    } else if right && !left {
        rotation + SPACE_SHIP_TURN
    } else {
        rotation
    }
}

/// Whether a collision at `now` gets past the invulnerability window.
pub open spec fn shield_decrements(s: Spaceship, now: int) -> bool {
    now - s.last_collision_time >= SHIELD_COOLDOWN_MS
}

/// The ship after a collision is reported at `now`: outside the cooldown the
/// shield drops by one and the hit is recorded; inside it nothing changes.
pub open spec fn shield_step_spec(s: Spaceship, now: int) -> Spaceship {
    if shield_decrements(s, now) {
        Spaceship { shield: (s.shield - 1) as u32, last_collision_time: now as i64, ..s }
    } else {
        s
    }
}

/// Two collisions less than the cooldown apart decrement the shield only
/// once: after a decrementing hit, a second hit inside the window leaves the
/// ship unchanged.
pub proof fn lemma_shield_cooldown(s: Spaceship, t1: int, t2: int)
    requires
        shield_decrements(s, t1),
        t2 - t1 < SHIELD_COOLDOWN_MS,
        -TIME_LIMIT <= t1 <= TIME_LIMIT,
        -TIME_LIMIT <= t2 <= TIME_LIMIT,
    ensures
        shield_step_spec(shield_step_spec(s, t1), t2) == shield_step_spec(s, t1),
{
}

impl StellarObject for Spaceship {
    open spec fn obj_position(&self) -> Vec2i {
        self.position
    }

    open spec fn obj_speed(&self) -> Vec2i {
        self.speed
    }

    open spec fn obj_size(&self) -> i64 {
        self.size
    }

    fn get_position(&self) -> Vec2i {
        self.position
    }

    fn get_speed(&self) -> Vec2i {
        self.speed
    }

    fn get_size(&self) -> i64 {
        self.size
    }

    fn set_position(&mut self, position: Vec2i) {
        self.position = position;
    }
}

impl Spaceship {
    /// A fresh ship at the centre of the play area: no speed, no rotation, a
    /// full shield, no score, and the last collision backdated so that the
    /// first hit always counts.
    pub fn new(bounds: Bounds) -> (s: Spaceship)
        requires
            bounds.wf(),
        ensures
            s.position.x == bounds.width as int / 2,
            s.position.y == bounds.height as int / 2,
            s.speed == (Vec2i { x: 0, y: 0 }),
            s.size == SPACE_SHIP_SIZE,
            s.rotation == 0,
            s.shield == SHIELD_START,
            s.last_collision_time == -SHIELD_COOLDOWN_MS,
            s.score == 0,
    {
        Spaceship {
            position: Vec2i {
                x: ((bounds.width as u64) / 2) as i64,
                y: ((bounds.height as u64) / 2) as i64,
            },
            speed: Vec2i { x: 0, y: 0 },
            size: SPACE_SHIP_SIZE,
            rotation: 0,
            shield: SHIELD_START,
            last_collision_time: -SHIELD_COOLDOWN_MS,
            score: 0,
        }
    }

    /// The ship's facing angle, in milliradians.
    pub fn get_rotation(&self) -> (r: i64)
        ensures
            r == self.rotation,
    {
        self.rotation
    }

    /// The circle-overlap test against one asteroid.
    pub fn collision(&self, asteroid: &Asteroid) -> (r: bool)
        requires
            ship_geom_ok(*self),
            asteroid_geom_ok(*asteroid),
        ensures
            r == circles_overlap(self.position, self.size, asteroid.position, asteroid.size),
    {
        check_circles_overlap(self.position, self.size, asteroid.position, asteroid.size)
    }

    /// Whether the ship overlaps any asteroid in the collection.
    pub fn spaceship_collision(&self, asteroids: &Vec<Asteroid>) -> (r: bool)
        requires
            ship_geom_ok(*self),
            forall|i: int| 0 <= i < asteroids@.len() ==> asteroid_geom_ok(#[trigger] asteroids@[i]),
        ensures
            r == hits_any_asteroid(self.position, self.size, asteroids@),
    {
        let mut i: usize = 0;
        while i < asteroids.len()
            invariant
                0 <= i <= asteroids@.len(),
                ship_geom_ok(*self),
                forall|j: int| 0 <= j < asteroids@.len() ==> asteroid_geom_ok(#[trigger] asteroids@[j]),
                forall|j: int|
                    0 <= j < i ==> !circles_overlap(
                        self.position,
                        self.size,
                        #[trigger] asteroids@[j].position,
                        asteroids@[j].size,
                    ),
            decreases asteroids@.len() - i,
        {
            if self.collision(&asteroids[i]) {
                return true;
            }
            i = i + 1;
        }
        false
    }

    /// The circle-overlap test against one black hole.
    pub fn collision_blackhole(&self, blackhole: &BlackHole) -> (r: bool)
        requires
            ship_geom_ok(*self),
            blackhole_geom_ok(*blackhole),
        ensures
            r == circles_overlap(self.position, self.size, blackhole.position, blackhole.size),
    {
        check_circles_overlap(self.position, self.size, blackhole.position, blackhole.size)
    }

    /// Whether the ship overlaps any black hole in the collection.
    pub fn spaceship_blackhole_collision(&self, blackholes: &Vec<BlackHole>) -> (r: bool)
        requires
            ship_geom_ok(*self),
            forall|i: int|
                0 <= i < blackholes@.len() ==> blackhole_geom_ok(#[trigger] blackholes@[i]),
        ensures
            r == hits_any_hole(self.position, self.size, blackholes@),
    {
        let mut i: usize = 0;
        while i < blackholes.len()
            invariant
                0 <= i <= blackholes@.len(),
                ship_geom_ok(*self),
                forall|j: int|
                    0 <= j < blackholes@.len() ==> blackhole_geom_ok(#[trigger] blackholes@[j]),
                forall|j: int|
                    0 <= j < i ==> !circles_overlap(
                        self.position,
                        self.size,
                        #[trigger] blackholes@[j].position,
                        blackholes@[j].size,
                    ),
            decreases blackholes@.len() - i,
        {
            if self.collision_blackhole(&blackholes[i]) {
                return true;
            }
            i = i + 1;
        }
        false
    }

    /// Reports a collision at `current_time`. Outside the invulnerability
    /// window the shield drops by one (the moment the surrounding layer
    /// plays the hit effect) and the hit is recorded; inside the window
    /// nothing changes. Returns whether the shield has just reached zero.
    pub fn check_shield(&mut self, current_time: i64) -> (dead: bool)
        requires
            old(self).shield >= 1,
            -TIME_LIMIT <= current_time <= TIME_LIMIT,
            -TIME_LIMIT <= old(self).last_collision_time <= TIME_LIMIT,
        ensures
            *final(self) == shield_step_spec(*old(self), current_time as int),
            dead == (shield_decrements(*old(self), current_time as int) && old(self).shield == 1),
    {
        if current_time - self.last_collision_time >= SHIELD_COOLDOWN_MS {
            self.shield = self.shield - 1;
            self.last_collision_time = current_time;
            self.shield == 0
        } else {
            false
        }
    }

    /// One classic-mode movement step: thrust along the supplied facing
    /// direction on up/down input, multiplicative speed decay, a fixed turn
    /// step on left/right input, then the wrapped position update.
    pub fn update_position_classic(
        &mut self,
        up: bool,
        down: bool,
        left: bool,
        right: bool,
        facing: Vec2i,
        bounds: Bounds,
    )
        requires
            bounds.wf(),
            bounds.width <= POSITION_LIMIT,
            bounds.height <= POSITION_LIMIT,
            -POSITION_LIMIT <= old(self).position.x <= POSITION_LIMIT,
            -POSITION_LIMIT <= old(self).position.y <= POSITION_LIMIT,
            -SHIP_SPEED_LIMIT <= old(self).speed.x <= SHIP_SPEED_LIMIT,
            -SHIP_SPEED_LIMIT <= old(self).speed.y <= SHIP_SPEED_LIMIT,
            -SCALE <= facing.x <= SCALE,
            -SCALE <= facing.y <= SCALE,
            -COORD_LIMIT + SPACE_SHIP_TURN <= old(self).rotation <= COORD_LIMIT - SPACE_SHIP_TURN,
        ensures
            final(self).speed == vel_step_spec(
                old(self).speed,
                classic_thrust_spec(facing, up, down),
            ),
            -SHIP_SPEED_LIMIT <= final(self).speed.x <= SHIP_SPEED_LIMIT,
            -SHIP_SPEED_LIMIT <= final(self).speed.y <= SHIP_SPEED_LIMIT,
            final(self).rotation == turn_spec(old(self).rotation as int, left, right),
            final(self).position == bound_pos_spec(
                Vec2i {
                    x: (old(self).position.x + final(self).speed.x) as i64,
                    y: (old(self).position.y + final(self).speed.y) as i64,
                },
                bounds.width as int,
                bounds.height as int,
            ),
            final(self).size == old(self).size,
            final(self).shield == old(self).shield,
            final(self).last_collision_time == old(self).last_collision_time,
            final(self).score == old(self).score,
    {
        let thrust = if up && !down {
            Vec2i {
                x: scale_div(facing.x * SPACE_SHIP_ACCELERATION),
                y: scale_div(facing.y * SPACE_SHIP_ACCELERATION),
            }
        } else if down && !up {
            Vec2i {
                x: scale_div(-facing.x * SPACE_SHIP_ACCELERATION),
                y: scale_div(-facing.y * SPACE_SHIP_ACCELERATION),
            }
        } else {
            Vec2i { x: 0, y: 0 }
        };
        self.apply_vel_and_move(thrust, bounds);
        if left && !right {
            self.rotation = self.rotation - SPACE_SHIP_TURN;
        } else if right && !left {
            self.rotation = self.rotation + SPACE_SHIP_TURN;
        }
    }

    /// One modern-mode movement step: eight-way thrust, multiplicative speed
    /// decay, then the wrapped position update; the facing never changes.
    pub fn update_position_modern(
        &mut self,
        up: bool,
        down: bool,
        left: bool,
        right: bool,
        bounds: Bounds,
    )
        requires
            bounds.wf(),
            bounds.width <= POSITION_LIMIT,
            bounds.height <= POSITION_LIMIT,
            -POSITION_LIMIT <= old(self).position.x <= POSITION_LIMIT,
            -POSITION_LIMIT <= old(self).position.y <= POSITION_LIMIT,
            -SHIP_SPEED_LIMIT <= old(self).speed.x <= SHIP_SPEED_LIMIT,
            -SHIP_SPEED_LIMIT <= old(self).speed.y <= SHIP_SPEED_LIMIT,
        ensures
            final(self).speed == vel_step_spec(
                old(self).speed,
                modern_thrust_spec(up, down, left, right),
            ),
            -SHIP_SPEED_LIMIT <= final(self).speed.x <= SHIP_SPEED_LIMIT,
            -SHIP_SPEED_LIMIT <= final(self).speed.y <= SHIP_SPEED_LIMIT,
            final(self).position == bound_pos_spec(
                Vec2i {
                    x: (old(self).position.x + final(self).speed.x) as i64,
                    y: (old(self).position.y + final(self).speed.y) as i64,
                },
                bounds.width as int,
                bounds.height as int,
            ),
            final(self).rotation == old(self).rotation,
            final(self).size == old(self).size,
            final(self).shield == old(self).shield,
            final(self).last_collision_time == old(self).last_collision_time,
            final(self).score == old(self).score,
    {
        let a = SPACE_SHIP_ACCELERATION;
        let thrust = match (up, down, left, right) {
            (true, false, true, false) => Vec2i { x: -a, y: -a },
            (true, false, false, true) => Vec2i { x: a, y: -a },
            (false, true, true, false) => Vec2i { x: -a, y: a },
            (false, true, false, true) => Vec2i { x: a, y: a },
            (true, false, false, false) => Vec2i { x: 0, y: -a },
            (false, true, false, false) => Vec2i { x: 0, y: a },
            (false, false, true, false) => Vec2i { x: -a, y: 0 },
            (false, false, false, true) => Vec2i { x: a, y: 0 },
            _ => Vec2i { x: 0, y: 0 },
        };
        proof {
            assert(thrust == modern_thrust_spec(up, down, left, right));
        }
        self.apply_vel_and_move(thrust, bounds);
    }

    /// Shared tail of the two movement models: decayed speed update and the
    /// wrapped position step.
    fn apply_vel_and_move(&mut self, thrust: Vec2i, bounds: Bounds)
        requires
            bounds.wf(),
            bounds.width <= POSITION_LIMIT,
            bounds.height <= POSITION_LIMIT,
            -POSITION_LIMIT <= old(self).position.x <= POSITION_LIMIT,
            -POSITION_LIMIT <= old(self).position.y <= POSITION_LIMIT,
            -SHIP_SPEED_LIMIT <= old(self).speed.x <= SHIP_SPEED_LIMIT,
            -SHIP_SPEED_LIMIT <= old(self).speed.y <= SHIP_SPEED_LIMIT,
            -SPACE_SHIP_ACCELERATION <= thrust.x <= SPACE_SHIP_ACCELERATION,
            -SPACE_SHIP_ACCELERATION <= thrust.y <= SPACE_SHIP_ACCELERATION,
        ensures
            final(self).speed == vel_step_spec(old(self).speed, thrust),
            -SHIP_SPEED_LIMIT <= final(self).speed.x <= SHIP_SPEED_LIMIT,
            -SHIP_SPEED_LIMIT <= final(self).speed.y <= SHIP_SPEED_LIMIT,
            final(self).position == bound_pos_spec(
                Vec2i {
                    x: (old(self).position.x + final(self).speed.x) as i64,
                    y: (old(self).position.y + final(self).speed.y) as i64,
                },
                bounds.width as int,
                bounds.height as int,
            ),
            final(self).rotation == old(self).rotation,
            final(self).size == old(self).size,
            final(self).shield == old(self).shield,
            final(self).last_collision_time == old(self).last_collision_time,
            final(self).score == old(self).score,
    {
        let vx = scale_div((self.speed.x + thrust.x) * SPACE_SHIP_DECELERATION);
        let vy = scale_div((self.speed.y + thrust.y) * SPACE_SHIP_DECELERATION);
        self.speed = Vec2i { x: vx, y: vy };
        let step = Vec2i { x: self.position.x + vx, y: self.position.y + vy };
        self.position = bound_pos(step, bounds);
    }

    /// The fixed-point unit direction from the ship toward `target` (the
    /// pointer position in modern mode); a target on the ship itself maps to
    /// pointing right.
    pub fn angle_from_mouse(&self, target: Vec2i) -> (dir: Vec2i)
        requires
            -POSITION_LIMIT <= self.position.x <= POSITION_LIMIT,
            -POSITION_LIMIT <= self.position.y <= POSITION_LIMIT,
            -POSITION_LIMIT <= target.x <= POSITION_LIMIT,
            -POSITION_LIMIT <= target.y <= POSITION_LIMIT,
        ensures
            target != self.position ==> unit_toward(
                Vec2i {
                    x: (target.x - self.position.x) as i64,
                    y: (target.y - self.position.y) as i64,
                },
                dir,
            ),
            target == self.position ==> dir == (Vec2i { x: SCALE, y: 0 }),
            -SCALE <= dir.x <= SCALE,
            -SCALE <= dir.y <= SCALE,
    {
        let dx = target.x - self.position.x;
        let dy = target.y - self.position.y;
        if dx == 0 && dy == 0 {
            Vec2i { x: SCALE, y: 0 }
        } else {
            scale_to_unit(Vec2i { x: dx, y: dy })
        }
    }
}

} // verus!
