//! Missiles: line-segment projectiles shot by the ship, their movement, the
//! exact segment-versus-circle collision test against asteroids, and the
//! culling of missiles that leave the play area.

use crate::asteroid::{valid_split, Asteroid};
use crate::geom::{
    dist2, scale_div, scale_div_spec, Bounds, Vec2i, FACTOR_LIMIT, POSITION_LIMIT, SCALE,
    SPEED_LIMIT, TIME_LIMIT,
};
use crate::score::{add_score, increase_score, score_for_shape_spec};
use crate::seqs::swap_remove_seq;
use crate::spaceship::Spaceship;
use crate::stellarobject::StellarObject;
use vstd::prelude::*;

verus! {

/// Length multiplier of every missile: the segment spans five times the
/// speed vector.
pub const MISSILE_SIZE: i64 = 5_000;

/// Drawing thickness of a missile.
pub const MISSILE_THICKNESS: i64 = 2_000;

/// Cooldown between two shots, in milliseconds.
pub const SHOOT_COOLDOWN_MS: i64 = 200;

/// A missile in flight.
#[derive(Debug, PartialEq, Eq, Structural, Clone, Copy)]
pub struct Missile {
    /// Rear end of the missile's segment.
    pub position: Vec2i,
    /// Displacement per simulation tick.
    pub speed: Vec2i,
    /// Length multiplier: the segment runs to `position + speed * size`.
    pub size: i64,
    /// Drawing thickness.
    pub thickness: i64,
}

/// The far end of the missile's segment.
pub open spec fn missile_end_spec(m: Missile) -> Vec2i {
    Vec2i {
        x: (m.position.x + scale_div_spec(m.speed.x * m.size)) as i64,
        y: (m.position.y + scale_div_spec(m.speed.y * m.size)) as i64,
    }
}

/// The missile's fields are small enough for the exact collision test.
pub open spec fn missile_geom_ok(m: Missile) -> bool {
    &&& -POSITION_LIMIT <= m.position.x <= POSITION_LIMIT
    &&& -POSITION_LIMIT <= m.position.y <= POSITION_LIMIT
    &&& -SPEED_LIMIT <= m.speed.x <= SPEED_LIMIT
    &&& -SPEED_LIMIT <= m.speed.y <= SPEED_LIMIT
    &&& 0 <= m.size <= FACTOR_LIMIT
}

/// Squared length of the segment `a..b`.
pub open spec fn seg_len2(a: Vec2i, b: Vec2i) -> int {
    (b.x - a.x) * (b.x - a.x) + (b.y - a.y) * (b.y - a.y)
}

/// Dot product of `b - a` with `c - a`: the unclamped projection of `c` onto
/// the segment, scaled by its length.
pub open spec fn seg_dot(a: Vec2i, b: Vec2i, c: Vec2i) -> int {
    (b.x - a.x) * (c.x - a.x) + (b.y - a.y) * (c.y - a.y)
}

/// Cross product of `b - a` with `c - a`: the distance of `c` from the
/// infinite line through the segment, scaled by its length.
pub open spec fn seg_cross(a: Vec2i, b: Vec2i, c: Vec2i) -> int {
    (b.x - a.x) * (c.y - a.y) - (b.y - a.y) * (c.x - a.x)
}

/// Whether the segment `a..b` passes within `r` of the centre `c`: the
/// centre is projected onto the segment, the projection is clamped to the
/// segment, and the distance from the centre to that closest point is
/// compared against `r` (inclusively). Each branch clears the projection's
/// denominator, so the comparison is exact.
pub open spec fn segment_hits_circle(a: Vec2i, b: Vec2i, c: Vec2i, r: int) -> bool {
    let len2 = seg_len2(a, b);
    let dot = seg_dot(a, b, c);
    if len2 == 0 || dot <= 0 {
        dist2(a, c) <= r * r
    } else if dot >= len2 {
        dist2(b, c) <= r * r
    } else {
        dist2(a, c) * len2 - dot * dot <= r * r * len2
    }
}

/// The missile's anchor point still lies inside the play area.
pub open spec fn missile_in_play(m: Missile, bounds: Bounds) -> bool {
    0 <= m.position.x <= bounds.width && 0 <= m.position.y <= bounds.height
}

/// The missiles that survive a cull: those still inside the play area, in
/// their original order.
pub open spec fn cull_spec(s: Seq<Missile>, bounds: Bounds) -> Seq<Missile>
    decreases s.len(),
{
    if s.len() == 0 {
        Seq::empty()
    } else {
        let rest = cull_spec(s.drop_last(), bounds);
        if missile_in_play(s.last(), bounds) {
            rest.push(s.last())
        } else {
            rest
        }
    }
}

/// A cull never grows the collection.
pub proof fn lemma_cull_len(s: Seq<Missile>, bounds: Bounds)
    ensures
        cull_spec(s, bounds).len() <= s.len(),
    decreases s.len(),
{
    if s.len() > 0 {
        lemma_cull_len(s.drop_last(), bounds);
    }
}

/// Whether the missile's segment passes within the asteroid's radius.
pub open spec fn missile_hits(m: Missile, a: Asteroid) -> bool {
    segment_hits_circle(m.position, missile_end_spec(m), a.position, a.size as int)
}

/// The asteroid's position and size are small enough for the exact segment
/// collision test.
pub open spec fn asteroid_target_ok(a: Asteroid) -> bool {
    &&& -POSITION_LIMIT <= a.position.x <= POSITION_LIMIT
    &&& -POSITION_LIMIT <= a.position.y <= POSITION_LIMIT
    &&& 0 <= a.size <= POSITION_LIMIT
}

/// The first index `>= j` of an asteroid the missile hits, or the length if
/// it hits none.
pub open spec fn first_hit_from(m: Missile, s: Seq<Asteroid>, j: int) -> int
    decreases s.len() - j,
{
    if j < 0 || j >= s.len() {
        s.len() as int
    } else if missile_hits(m, s[j]) {
        j
    } else {
        first_hit_from(m, s, j + 1)
    }
}

/// The first asteroid the missile hits, or the length if it hits none.
pub open spec fn first_hit(m: Missile, s: Seq<Asteroid>) -> int {
    first_hit_from(m, s, 0)
}

/// One missile resolution pass, related step by step to its outcome. The
/// missile at index `i` is tested against the asteroids in order; on its
/// first hit the struck asteroid's score is awarded, both are swap-removed,
/// the asteroid's fragments (a valid split, drawn at random) are appended,
/// and the scan continues at the same slot (which now holds the formerly
/// last missile; after a hit at slot zero the scan moves on). Each removal
/// is one boom. `fms`, `fasts`, `fscore` and `booms` are the final
/// missiles, asteroids, score and boom count the pass produces.
pub open spec fn missile_pass_rel(
    ms: Seq<Missile>,
    asts: Seq<Asteroid>,
    score: int,
    i: int,
    fms: Seq<Missile>,
    fasts: Seq<Asteroid>,
    fscore: int,
    booms: int,
    now: int,
) -> bool
    decreases ms.len() + 1 - i,
    when i >= 0
{
    if i >= ms.len() {
        fms == ms && fasts == asts && fscore == score && booms == 0
    } else {
        let j = first_hit(ms[i], asts);
        if j == asts.len() {
            missile_pass_rel(ms, asts, score, i + 1, fms, fasts, fscore, booms, now)
        } else {
            booms >= 1 && exists|frags: Seq<Asteroid>|
                #![trigger valid_split(asts[j], frags, now)]
                {
                    &&& valid_split(asts[j], frags, now)
                    &&& missile_pass_rel(
                        swap_remove_seq(ms, i),
                        swap_remove_seq(asts, j) + frags,
                        score + score_for_shape_spec(asts[j].shape),
                        if i == 0 {
                            1
                        } else {
                            i
                        },
                        fms,
                        fasts,
                        fscore,
                        booms - 1,
                        now,
                    )
                }
        }
    }
}

/// Lagrange's identity on the plane: the squared dot and cross products of
/// two vectors sum to the product of their squared norms.
proof fn lemma_lagrange(px: int, py: int, qx: int, qy: int)
    ensures
        (px * qx + py * qy) * (px * qx + py * qy) + (px * qy - py * qx) * (px * qy - py * qx) == (
        px * px + py * py) * (qx * qx + qy * qy),
{
    let a = px * qx;
    let b = py * qy;
    let c = px * qy;
    let d = py * qx;
    assert((a + b) * (a + b) == a * a + 2 * (a * b) + b * b) by (nonlinear_arith);
    assert((c - d) * (c - d) == c * c - 2 * (c * d) + d * d) by (nonlinear_arith);
    assert(a * b == c * d) by (nonlinear_arith)
        requires
            a == px * qx,
            b == py * qy,
            c == px * qy,
            d == py * qx;
    assert(a * a == (px * px) * (qx * qx)) by (nonlinear_arith)
        requires
            a == px * qx;
    assert(b * b == (py * py) * (qy * qy)) by (nonlinear_arith)
        requires
            b == py * qy;
    assert(c * c == (px * px) * (qy * qy)) by (nonlinear_arith)
        requires
            c == px * qy;
    assert(d * d == (py * py) * (qx * qx)) by (nonlinear_arith)
        requires
            d == py * qx;
    assert((px * px + py * py) * (qx * qx + qy * qy) == (px * px) * (qx * qx) + (px * px) * (qy
        * qy) + (py * py) * (qx * qx) + (py * py) * (qy * qy)) by (nonlinear_arith);
}

/// Squaring ignores the orientation of a difference.
proof fn lemma_sq_swap(u: int, v: int)
    by (nonlinear_arith)
    ensures
        (u - v) * (u - v) == (v - u) * (v - u),
{
}

/// A sum of two squares is never negative.
proof fn lemma_sum_sq_nonneg(x: int, y: int)
    by (nonlinear_arith)
    ensures
        0 <= x * x,
        0 <= x * x + y * y,
{
}

/// Multiplication commutes.
proof fn lemma_mul_swap(x: int, y: int)
    by (nonlinear_arith)
    ensures
        x * y == y * x,
{
}

/// The product of non-negative factors is non-negative.
proof fn lemma_mul_nonneg(x: int, y: int)
    by (nonlinear_arith)
    requires
        0 <= x,
        0 <= y,
    ensures
        0 <= x * y,
{
}

/// A product that vanishes against a positive factor has a zero first
/// factor, provided it is non-negative.
proof fn lemma_zero_prod(x: int, y: int)
    by (nonlinear_arith)
    requires
        x * y == 0,
        y > 0,
        x >= 0,
    ensures
        x == 0,
{
}

/// Bilinearity of dot and cross products at the far endpoint: shifting the
/// projection point from `a` to `b` subtracts the squared length from the
/// dot product and keeps the cross product.
proof fn lemma_shift_endpoint(px: int, py: int, ux: int, uy: int)
    by (nonlinear_arith)
    ensures
        px * (ux - px) + py * (uy - py) == (px * ux + py * uy) - (px * px + py * py),
        px * (uy - py) - py * (ux - px) == px * uy - py * ux,
{
}

/// A segment that passes exactly through the centre always hits: lying on
/// the segment means a zero cross product with a projection inside `[0, 1]`.
pub proof fn lemma_segment_through_centre_hits(a: Vec2i, b: Vec2i, c: Vec2i, r: int)
    requires
        r >= 0,
        seg_len2(a, b) > 0,
        seg_cross(a, b, c) == 0,
        0 <= seg_dot(a, b, c) <= seg_len2(a, b),
    ensures
        segment_hits_circle(a, b, c, r),
{
    let abx = b.x - a.x;
    let aby = b.y - a.y;
    let acx = c.x - a.x;
    let acy = c.y - a.y;
    let len2 = seg_len2(a, b);
    let dot = seg_dot(a, b, c);
    lemma_lagrange(abx, aby, acx, acy);
    lemma_sum_sq_nonneg(acx, acy);
    lemma_mul_nonneg(r, r);
    lemma_sq_swap(a.x as int, c.x as int);
    lemma_sq_swap(a.y as int, c.y as int);
    assert(dist2(a, c) == acx * acx + acy * acy);
    assert(dot * dot + 0 == (abx * abx + aby * aby) * (acx * acx + acy * acy));
    lemma_mul_swap(abx * abx + aby * aby, acx * acx + acy * acy);
    assert(dot * dot == dist2(a, c) * len2);
    if dot <= 0 {
        lemma_zero_prod(dist2(a, c), len2);
    } else if dot >= len2 {
        let bcx = c.x - b.x;
        let bcy = c.y - b.y;
        lemma_shift_endpoint(abx, aby, acx, acy);
        assert(abx * bcx + aby * bcy == 0);
        assert(abx * bcy - aby * bcx == 0);
        lemma_lagrange(abx, aby, bcx, bcy);
        lemma_sum_sq_nonneg(bcx, bcy);
        lemma_sq_swap(b.x as int, c.x as int);
        lemma_sq_swap(b.y as int, c.y as int);
        assert(dist2(b, c) == bcx * bcx + bcy * bcy);
        lemma_mul_swap(abx * abx + aby * aby, bcx * bcx + bcy * bcy);
        lemma_zero_prod(dist2(b, c), len2);
    } else {
        lemma_mul_nonneg(r * r, len2);
        assert(dist2(a, c) * len2 - dot * dot == 0);
    }
}

/// A closest approach of exactly `r` still hits: the comparison against the
/// radius is inclusive.
pub proof fn lemma_segment_boundary_hits(a: Vec2i, b: Vec2i, c: Vec2i, r: int)
    requires
        ({
            let len2 = seg_len2(a, b);
            let dot = seg_dot(a, b, c);
            if len2 == 0 || dot <= 0 {
                dist2(a, c) == r * r
            } else if dot >= len2 {
                dist2(b, c) == r * r
            } else {
                dist2(a, c) * len2 - dot * dot == r * r * len2
            }
        }),
    ensures
        segment_hits_circle(a, b, c, r),
{
}

/// A missile whose infinite line passes within `r` of the centre, but whose
/// clamped segment stays behind the near endpoint and outside the circle,
/// does not hit.
pub proof fn lemma_segment_clamped_misses(a: Vec2i, b: Vec2i, c: Vec2i, r: int)
    requires
        seg_len2(a, b) > 0,
        seg_cross(a, b, c) * seg_cross(a, b, c) <= r * r * seg_len2(a, b),
        seg_dot(a, b, c) <= 0,
        dist2(a, c) > r * r,
    ensures
        !segment_hits_circle(a, b, c, r),
{
}

impl StellarObject for Missile {
    open spec fn obj_position(&self) -> Vec2i {
        self.position
    }

    open spec fn obj_speed(&self) -> Vec2i {
        self.speed
    }

    open spec fn obj_size(&self) -> i64 {
        self.size
    }

    fn get_position(&self) -> Vec2i {
        self.position
    }

    fn get_speed(&self) -> Vec2i {
        self.speed
    }

    fn get_size(&self) -> i64 {
        self.size
    }

    fn set_position(&mut self, position: Vec2i) {
        self.position = position;
    }
}

impl Missile {
    /// A new missile with the given segment data.
    pub fn new(position: Vec2i, speed: Vec2i, size: i64, thickness: i64) -> (m: Missile)
        ensures
            m == (Missile { position, speed, size, thickness }),
    {
        Missile { position, speed, size, thickness }
    }

    /// The far end of the missile's segment.
    pub fn get_end_position(&self) -> (p: Vec2i)
        requires
            missile_geom_ok(*self),
        ensures
            p == missile_end_spec(*self),
    {
        proof {
            assert(-SPEED_LIMIT * FACTOR_LIMIT <= self.speed.x * self.size <= SPEED_LIMIT
                * FACTOR_LIMIT && -SPEED_LIMIT * FACTOR_LIMIT <= self.speed.y * self.size
                <= SPEED_LIMIT * FACTOR_LIMIT) by (nonlinear_arith)
                requires
                    -SPEED_LIMIT <= self.speed.x <= SPEED_LIMIT,
                    -SPEED_LIMIT <= self.speed.y <= SPEED_LIMIT,
                    0 <= self.size <= FACTOR_LIMIT;
        }
        Vec2i {
            x: self.position.x + scale_div(self.speed.x * self.size),
            y: self.position.y + scale_div(self.speed.y * self.size),
        }
    }

    /// One movement step: the speed is added to the position. Missiles never
    /// wrap; leaving the play area is what removes them.
    pub fn move_missile(&mut self)
        requires
            -2 * POSITION_LIMIT <= old(self).position.x <= 2 * POSITION_LIMIT,
            -2 * POSITION_LIMIT <= old(self).position.y <= 2 * POSITION_LIMIT,
            -SPEED_LIMIT <= old(self).speed.x <= SPEED_LIMIT,
            -SPEED_LIMIT <= old(self).speed.y <= SPEED_LIMIT,
        ensures
            *final(self) == (Missile {
                position: Vec2i {
                    x: (old(self).position.x + old(self).speed.x) as i64,
                    y: (old(self).position.y + old(self).speed.y) as i64,
                },
                ..*old(self)
            }),
    {
        self.position = Vec2i { x: self.position.x + self.speed.x, y: self.position.y + self.speed.y };
    }

    /// Whether the missile's segment passes within the asteroid's radius of
    /// its centre, computed exactly in `i128`.
    pub fn is_collide_asteroid(&self, asteroid: &Asteroid) -> (r: bool)
        requires
            missile_geom_ok(*self),
            -POSITION_LIMIT <= asteroid.position.x <= POSITION_LIMIT,
            -POSITION_LIMIT <= asteroid.position.y <= POSITION_LIMIT,
            0 <= asteroid.size <= POSITION_LIMIT,
        ensures
            r == segment_hits_circle(
                self.position,
                missile_end_spec(*self),
                asteroid.position,
                asteroid.size as int,
            ),
    {
        let a = self.position;
        let b = self.get_end_position();
        let c = asteroid.position;
        let abx = b.x as i128 - a.x as i128;
        let aby = b.y as i128 - a.y as i128;
        let acx = c.x as i128 - a.x as i128;
        let acy = c.y as i128 - a.y as i128;
        let bcx = c.x as i128 - b.x as i128;
        let bcy = c.y as i128 - b.y as i128;
        let rr = asteroid.size as i128;
        proof {
            assert(-SPEED_LIMIT * FACTOR_LIMIT <= self.speed.x * self.size <= SPEED_LIMIT
                * FACTOR_LIMIT && -SPEED_LIMIT * FACTOR_LIMIT <= self.speed.y * self.size
                <= SPEED_LIMIT * FACTOR_LIMIT) by (nonlinear_arith)
                requires
                    -SPEED_LIMIT <= self.speed.x <= SPEED_LIMIT,
                    -SPEED_LIMIT <= self.speed.y <= SPEED_LIMIT,
                    0 <= self.size <= FACTOR_LIMIT;
            crate::geom::lemma_scale_div_bound(self.speed.x * self.size, 1_000_000_000);
            crate::geom::lemma_scale_div_bound(self.speed.y * self.size, 1_000_000_000);
            lemma_seg_products_bounded(
                abx as int,
                aby as int,
                acx as int,
                acy as int,
                bcx as int,
                bcy as int,
                rr as int,
            );
            lemma_sq_swap(a.x as int, c.x as int);
            lemma_sq_swap(a.y as int, c.y as int);
            lemma_sq_swap(b.x as int, c.x as int);
            lemma_sq_swap(b.y as int, c.y as int);
            assert(dist2(a, c) == (acx * acx + acy * acy));
            assert(dist2(b, c) == (bcx * bcx + bcy * bcy));
        }
        let len2 = abx * abx + aby * aby;
        let dot = abx * acx + aby * acy;
        let ac2 = acx * acx + acy * acy;
        if len2 == 0 || dot <= 0 {
            ac2 <= rr * rr
        } else if dot >= len2 {
            let bc2 = bcx * bcx + bcy * bcy;
            bc2 <= rr * rr
        } else {
            ac2 * len2 - dot * dot <= rr * rr * len2
        }
    }

    /// Classic-mode shoot gate: the fire key is held and the cooldown since
    /// the last shot has passed.
    pub fn do_i_shoot_classic(key_down: bool, last_shoot: i64, time: i64) -> (r: bool)
        requires
            -TIME_LIMIT <= last_shoot <= TIME_LIMIT,
            -TIME_LIMIT <= time <= TIME_LIMIT,
        ensures
            r == (key_down && time - last_shoot > SHOOT_COOLDOWN_MS),
    {
        key_down && time - last_shoot > SHOOT_COOLDOWN_MS
    }

    /// Modern-mode shoot gate: any mouse button is held and the cooldown
    /// since the last shot has passed.
    pub fn do_i_shoot_modern(button_down: bool, last_shoot: i64, time: i64) -> (r: bool)
        requires
            -TIME_LIMIT <= last_shoot <= TIME_LIMIT,
            -TIME_LIMIT <= time <= TIME_LIMIT,
        ensures
            r == (button_down && time - last_shoot > SHOOT_COOLDOWN_MS),
    {
        button_down && time - last_shoot > SHOOT_COOLDOWN_MS
    }

    /// A classic-mode missile: it starts at the ship and flies along the
    /// ship's facing direction, scaled by `factor`. A zero scaled speed
    /// would fall back to the same direction vector; the branch is kept as
    /// in the movement model it guards, though the fallback recomputes the
    /// identical value.
    pub fn new_missile_classic(spaceship: &Spaceship, factor: i64, facing: Vec2i) -> (m: Missile)
        requires
            -SCALE <= facing.x <= SCALE,
            -SCALE <= facing.y <= SCALE,
            0 <= factor <= FACTOR_LIMIT,
        ensures
            m.position == spaceship.position,
            m.speed == (Vec2i {
                x: scale_div_spec(facing.x * factor) as i64,
                y: scale_div_spec(facing.y * factor) as i64,
            }),
            m.size == MISSILE_SIZE,
            m.thickness == MISSILE_THICKNESS,
    {
        proof {
            assert(-SCALE * FACTOR_LIMIT <= facing.x * factor <= SCALE * FACTOR_LIMIT && -SCALE
                * FACTOR_LIMIT <= facing.y * factor <= SCALE * FACTOR_LIMIT) by (nonlinear_arith)
                requires
                    -SCALE <= facing.x <= SCALE,
                    -SCALE <= facing.y <= SCALE,
                    0 <= factor <= FACTOR_LIMIT;
        }
        let source = spaceship.get_position();
        let speed = Vec2i { x: scale_div(facing.x * factor), y: scale_div(facing.y * factor) };
        if speed.x == 0 && speed.y == 0 {
            let rotation_vec = facing;
            let fallback = Vec2i {
                x: scale_div(rotation_vec.x * factor),
                y: scale_div(rotation_vec.y * factor),
            };
            Missile::new(source, fallback, MISSILE_SIZE, MISSILE_THICKNESS)
        } else {
            Missile::new(source, speed, MISSILE_SIZE, MISSILE_THICKNESS)
        }
    }

    /// A modern-mode missile: it starts at the ship and flies toward the
    /// pointer position, scaled by `factor`.
    pub fn new_missile_modern(spaceship: &Spaceship, factor: i64, mouse: Vec2i) -> (m: Missile)
        requires
            -POSITION_LIMIT <= spaceship.position.x <= POSITION_LIMIT,
            -POSITION_LIMIT <= spaceship.position.y <= POSITION_LIMIT,
            -POSITION_LIMIT <= mouse.x <= POSITION_LIMIT,
            -POSITION_LIMIT <= mouse.y <= POSITION_LIMIT,
            0 <= factor <= FACTOR_LIMIT,
        ensures
            m.position == spaceship.position,
            m.size == MISSILE_SIZE,
            m.thickness == MISSILE_THICKNESS,
            exists|aim: Vec2i|
                #![trigger aim.x]
                {
                    &&& (mouse != spaceship.position ==> crate::geom::unit_toward(
                        Vec2i {
                            x: (mouse.x - spaceship.position.x) as i64,
                            y: (mouse.y - spaceship.position.y) as i64,
                        },
                        aim,
                    ))
                    &&& (mouse == spaceship.position ==> aim == (Vec2i { x: SCALE, y: 0 }))
                    &&& m.speed == (Vec2i {
                        x: scale_div_spec(aim.x * factor) as i64,
                        y: scale_div_spec(aim.y * factor) as i64,
                    })
                },
    {
        let source = spaceship.get_position();
        let aim = spaceship.angle_from_mouse(mouse);
        proof {
            assert(-SCALE * FACTOR_LIMIT <= aim.x * factor <= SCALE * FACTOR_LIMIT && -SCALE
                * FACTOR_LIMIT <= aim.y * factor <= SCALE * FACTOR_LIMIT) by (nonlinear_arith)
                requires
                    -SCALE <= aim.x <= SCALE,
                    -SCALE <= aim.y <= SCALE,
                    0 <= factor <= FACTOR_LIMIT;
        }
        let speed = Vec2i { x: scale_div(aim.x * factor), y: scale_div(aim.y * factor) };
        Missile::new(source, speed, MISSILE_SIZE, MISSILE_THICKNESS)
    }

    /// Removes every missile that has left the play area, keeping the rest
    /// in order.
    pub fn clear_missiles(missiles: &mut Vec<Missile>, bounds: Bounds)
        ensures
            final(missiles)@ == cull_spec(old(missiles)@, bounds),
            forall|k: int|
                0 <= k < final(missiles)@.len() ==> missile_in_play(
                    #[trigger] final(missiles)@[k],
                    bounds,
                ) && exists|j: int|
                    0 <= j < old(missiles)@.len() && old(missiles)@[j] == final(missiles)@[k],
    {
        let ghost s0 = missiles@;
        let mut kept: Vec<Missile> = Vec::new();
        let mut i: usize = 0;
        while i < missiles.len()
            invariant
                i <= missiles@.len(),
                missiles@ == s0,
                kept@ == cull_spec(s0.subrange(0, i as int), bounds),
                forall|k: int|
                    0 <= k < kept@.len() ==> missile_in_play(#[trigger] kept@[k], bounds) && exists|
                        j: int,
                    | 0 <= j < s0.len() && s0[j] == kept@[k],
            decreases missiles@.len() - i,
        {
            let m = missiles[i];
            if 0 <= m.position.x && m.position.x <= bounds.width && 0 <= m.position.y
                && m.position.y <= bounds.height {
                kept.push(m);
            }
            proof {
                let pre = s0.subrange(0, i as int);
                let post = s0.subrange(0, i as int + 1);
                assert(post.drop_last() =~= pre);
                assert(post.last() == s0[i as int]);
            }
            i = i + 1;
        }
        proof {
            assert(s0.subrange(0, s0.len() as int) =~= s0);
        }
        *missiles = kept;
    }

    /// One missile resolution pass: each missile strikes at most the first
    /// asteroid it hits, which is split and scored; both are swap-removed
    /// and the fragments appended before the scan continues. Returns the
    /// number of strikes (each one an impact the surrounding layer sounds).
    pub fn what_collide_missile(
        missiles: &mut Vec<Missile>,
        asteroids: &mut Vec<Asteroid>,
        spaceship: &mut Spaceship,
        now: i64,
    ) -> (booms: u32)
        requires
            forall|k: int|
                0 <= k < old(missiles)@.len() ==> missile_geom_ok(#[trigger] old(missiles)@[k]),
            forall|k: int|
                0 <= k < old(asteroids)@.len() ==> asteroid_target_ok(
                    #[trigger] old(asteroids)@[k],
                ),
            old(spaceship).score + 100 * old(missiles)@.len() <= u32::MAX,
        ensures
            missile_pass_rel(
                old(missiles)@,
                old(asteroids)@,
                old(spaceship).score as int,
                0,
                final(missiles)@,
                final(asteroids)@,
                final(spaceship).score as int,
                booms as int,
                now as int,
            ),
            booms <= old(missiles)@.len(),
            *final(spaceship) == (Spaceship {
                score: final(spaceship).score,
                ..*old(spaceship)
            }),
            final(spaceship).score >= old(spaceship).score,
    {
        let ghost ms0 = missiles@;
        let ghost as0 = asteroids@;
        let ghost sc0 = spaceship.score as int;
        let ghost nowi = now as int;
        let mut booms: u32 = 0;
        let mut i: usize = 0;
        while i < missiles.len()
            invariant
                0 <= i,
                forall|k: int|
                    0 <= k < missiles@.len() ==> missile_geom_ok(#[trigger] missiles@[k]),
                forall|k: int|
                    0 <= k < asteroids@.len() ==> asteroid_target_ok(#[trigger] asteroids@[k]),
                booms as int + missiles@.len() == ms0.len(),
                100 * ms0.len() <= u32::MAX,
                spaceship.score + 100 * (missiles@.len() - i) <= u32::MAX || i >= missiles@.len(),
                *spaceship == (Spaceship { score: spaceship.score, ..*old(spaceship) }),
                old(spaceship).score as int == sc0,
                spaceship.score >= old(spaceship).score,
                nowi == now as int,
                forall|fms: Seq<Missile>, fasts: Seq<Asteroid>, fscore: int, b: int|
                    #![trigger missile_pass_rel(missiles@, asteroids@, spaceship.score as int, i as int, fms, fasts, fscore, b, nowi)]
                    (b >= 0 && missile_pass_rel(
                        missiles@,
                        asteroids@,
                        spaceship.score as int,
                        i as int,
                        fms,
                        fasts,
                        fscore,
                        b,
                        nowi,
                    )) ==> missile_pass_rel(
                        ms0,
                        as0,
                        sc0,
                        0,
                        fms,
                        fasts,
                        fscore,
                        b + booms as int,
                        nowi,
                    ),
            decreases missiles@.len() + 1 - i,
        {
            let ghost lm = missiles@;
            let ghost la = asteroids@;
            let ghost lsc = spaceship.score as int;
            let ghost lbooms = booms as int;
            let ghost i0 = i as int;
            let ghost mi = missiles@[i as int];
            let mut j: usize = 0;
            while j < asteroids.len() && !missiles[i].is_collide_asteroid(&asteroids[j])
                invariant
                    0 <= j <= asteroids@.len(),
                    i < missiles@.len(),
                    missiles@ == lm,
                    asteroids@ == la,
                    mi == lm[i as int],
                    forall|k: int|
                        0 <= k < missiles@.len() ==> missile_geom_ok(#[trigger] missiles@[k]),
                    forall|k: int|
                        0 <= k < asteroids@.len() ==> asteroid_target_ok(
                            #[trigger] asteroids@[k],
                        ),
                    first_hit(mi, la) == first_hit_from(mi, la, j as int),
                decreases asteroids@.len() - j,
            {
                j = j + 1;
            }
            if j < asteroids.len() {
                proof {
                    assert(missile_hits(mi, la[j as int]));
                    assert(first_hit(mi, la) == j as int);
                    assert(score_for_shape_spec(la[j as int].shape) <= 100);
                }
                booms = booms + 1;
                let aj = asteroids[j];
                let mut frags = aj.split(now);
                let pts = increase_score(&aj);
                add_score(spaceship, pts);
                let ghost fr = frags@;
                asteroids.swap_remove(j);
                missiles.swap_remove(i);
                asteroids.append(&mut frags);
                proof {
                    assert(missiles@ == swap_remove_seq(lm, i as int));
                    assert(asteroids@ == swap_remove_seq(la, j as int) + fr);
                    assert(valid_split(la[j as int], fr, nowi));
                    assert(forall|k: int|
                        0 <= k < asteroids@.len() ==> asteroid_target_ok(
                            #[trigger] asteroids@[k],
                        ));
                }
                if i > 0 {
                    i = i - 1;
                }
                proof {
                    assert(i as int + 1 == (if i0 == 0 {
                        1int
                    } else {
                        i0
                    }));
                    assert forall|fms: Seq<Missile>, fasts: Seq<Asteroid>, fscore: int, b: int|
                        #![trigger missile_pass_rel(missiles@, asteroids@, spaceship.score as int, i as int + 1, fms, fasts, fscore, b, nowi)]
                        (b >= 0 && missile_pass_rel(
                            missiles@,
                            asteroids@,
                            spaceship.score as int,
                            i as int + 1,
                            fms,
                            fasts,
                            fscore,
                            b,
                            nowi,
                        )) implies missile_pass_rel(
                        ms0,
                        as0,
                        sc0,
                        0,
                        fms,
                        fasts,
                        fscore,
                        b + booms as int,
                        nowi,
                    ) by {
                        assert(valid_split(la[j as int], fr, nowi));
                        assert(missile_pass_rel(
                            swap_remove_seq(lm, i0),
                            swap_remove_seq(la, j as int) + fr,
                            lsc + score_for_shape_spec(la[j as int].shape),
                            if i0 == 0 {
                                1int
                            } else {
                                i0
                            },
                            fms,
                            fasts,
                            fscore,
                            b,
                            nowi,
                        ));
                        assert(missile_pass_rel(lm, la, lsc, i0, fms, fasts, fscore, b + 1, nowi));
                    }
                }
            } else {
                proof {
                    assert(first_hit(mi, la) == la.len());
                    assert forall|fms: Seq<Missile>, fasts: Seq<Asteroid>, fscore: int, b: int|
                        #![trigger missile_pass_rel(missiles@, asteroids@, spaceship.score as int, i as int + 1, fms, fasts, fscore, b, nowi)]
                        (b >= 0 && missile_pass_rel(
                            missiles@,
                            asteroids@,
                            spaceship.score as int,
                            i as int + 1,
                            fms,
                            fasts,
                            fscore,
                            b,
                            nowi,
                        )) implies missile_pass_rel(
                        ms0,
                        as0,
                        sc0,
                        0,
                        fms,
                        fasts,
                        fscore,
                        b + booms as int,
                        nowi,
                    ) by {
                        assert(missile_pass_rel(
                            lm,
                            la,
                            lsc,
                            i as int,
                            fms,
                            fasts,
                            fscore,
                            b,
                            nowi,
                        ));
                    }
                }
            }
            i = i + 1;
        }
        proof {
            assert(missile_pass_rel(
                missiles@,
                asteroids@,
                spaceship.score as int,
                i as int,
                missiles@,
                asteroids@,
                spaceship.score as int,
                0,
                nowi,
            ));
        }
        booms
    }
}

/// Bounds every product of the exact segment collision test, keeping the
/// `i128` arithmetic overflow-free.
proof fn lemma_seg_products_bounded(
    abx: int,
    aby: int,
    acx: int,
    acy: int,
    bcx: int,
    bcy: int,
    rr: int,
)
    by (nonlinear_arith)
    requires
        -0x4000_0000 <= abx <= 0x4000_0000,
        -0x4000_0000 <= aby <= 0x4000_0000,
        -0x8000_0000 <= acx <= 0x8000_0000,
        -0x8000_0000 <= acy <= 0x8000_0000,
        -0x1_0000_0000 <= bcx <= 0x1_0000_0000,
        -0x1_0000_0000 <= bcy <= 0x1_0000_0000,
        0 <= rr <= 0x4000_0000,
    ensures
        0 <= abx * abx <= 0x1_0000_0000_0000_0000,
        0 <= aby * aby <= 0x1_0000_0000_0000_0000,
        0 <= acx * acx <= 0x1_0000_0000_0000_0000,
        0 <= acy * acy <= 0x1_0000_0000_0000_0000,
        0 <= bcx * bcx <= 0x1_0000_0000_0000_0000,
        0 <= bcy * bcy <= 0x1_0000_0000_0000_0000,
        -0x1_0000_0000_0000_0000 <= abx * acx <= 0x1_0000_0000_0000_0000,
        -0x1_0000_0000_0000_0000 <= aby * acy <= 0x1_0000_0000_0000_0000,
        0 <= abx * abx + aby * aby <= 0x2_0000_0000_0000_0000,
        -0x8000_0000_0000_0000 <= abx * acx + aby * acy <= 0x8000_0000_0000_0000,
        0 <= acx * acx + acy * acy <= 0x8000_0000_0000_0000,
        0 <= bcx * bcx + bcy * bcy <= 0x2_0000_0000_0000_0000,
        0 <= rr * rr <= 0x1000_0000_0000_0000,
        (acx * acx + acy * acy) * (abx * abx + aby * aby)
            <= 0x1000_0000_0000_0000_0000_0000_0000_0000,
        0 <= (abx * acx + aby * acy) * (abx * acx + aby * acy)
            <= 0x1000_0000_0000_0000_0000_0000_0000_0000,
        0 <= rr * rr * (abx * abx + aby * aby) <= 0x1000_0000_0000_0000_0000_0000_0000_0000,
{
}

} // verus!
