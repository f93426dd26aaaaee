//! Round orchestration: the per-tick update sequence of each game mode,
//! tying spawning, movement, collision resolution and scoring together.

use crate::asteroid::{
    advance_pos_spec, asteroid_from_pass, asteroid_geom_ok, asteroid_pass_post, rotation_step_spec,
    valid_fragment, valid_spawn, Asteroid, FusionPolicy, ASTEROID_LARGE_SIZE, ROTATION_STEP,
};
use crate::blackhole::{BlackHole, BLACKHOLE_ROTATION_STEP};
use crate::geom::{
    circles_overlap, lemma_scale_div_bound, scale_div_spec, Bounds, Vec2i, COORD_LIMIT,
    FACTOR_LIMIT, POSITION_LIMIT, SCALE, TIME_LIMIT,
};
use crate::missile::{
    asteroid_target_ok, cull_spec, lemma_cull_len, missile_geom_ok, missile_in_play,
    missile_pass_rel, Missile, MISSILE_SIZE, MISSILE_THICKNESS, SHOOT_COOLDOWN_MS,
};
use crate::spaceship::{
    classic_thrust_spec, hits_any_asteroid, hits_any_hole, shield_decrements, ship_geom_ok,
    turn_spec, vel_step_spec, Spaceship, SHIP_SPEED_LIMIT, SPACE_SHIP_TURN,
};
use vstd::prelude::*;

verus! {

/// No asteroid spawns once the round time passes this mark.
pub const SPAWN_CUTOFF_MS: i64 = 45_000;

/// Round time after which an empty field wins a classic round.
pub const CLASSIC_WIN_TIME_MS: i64 = 10_000;

/// Round time after which an empty field wins a modern round.
pub const MODERN_WIN_TIME_MS: i64 = 45_000;

/// Speed factor applied to a freshly shot missile.
pub const MISSILE_SHOT_FACTOR: i64 = 5_000;

/// Largest asteroid speed magnitude a tick accepts: double a unit heading.
pub const TICK_SPEED_LIMIT: i64 = 2_000;

/// Largest speed factor a tick accepts (ten times base speed).
pub const TICK_FACTOR_LIMIT: i64 = 10_000;

/// Largest missile speed magnitude a tick accepts.
pub const MISSILE_TICK_SPEED_LIMIT: i64 = 10_000;

/// The classic control state for one tick: held keys and the facing
/// directions (unit vectors for the ship's rotation angle before and after
/// this tick's turn, supplied by the presentation layer's trigonometry).
#[derive(Debug, PartialEq, Eq, Structural, Clone, Copy)]
pub struct ClassicInputs {
    pub up: bool,
    pub down: bool,
    pub left: bool,
    pub right: bool,
    pub fire: bool,
    pub facing: Vec2i,
    pub facing_after_turn: Vec2i,
}

/// The modern control state for one tick: held keys, mouse buttons, and the
/// pointer position.
#[derive(Debug, PartialEq, Eq, Structural, Clone, Copy)]
pub struct ModernInputs {
    pub up: bool,
    pub down: bool,
    pub left: bool,
    pub right: bool,
    pub fire: bool,
    pub mouse: Vec2i,
}

/// What one tick reports back: whether the round was lost, and the events
/// the presentation layer sounds: `shot` for the firing noise, one boom per
/// missile impact, and `shield_hit` for the collision effect — true exactly
/// when a shield point was spent, so the effect plays once per real hit and
/// never during the invulnerability window.
#[derive(Debug, PartialEq, Eq, Structural, Clone, Copy)]
pub struct TickOutcome {
    pub defeat: bool,
    pub shot: bool,
    pub booms: u32,
    pub shield_hit: bool,
}

/// The play area a tick accepts: room for the largest asteroid, small
/// enough for the movement arithmetic.
pub open spec fn tick_bounds_ok(b: Bounds) -> bool {
    &&& b.wf()
    &&& ASTEROID_LARGE_SIZE <= b.width <= POSITION_LIMIT / 2
    &&& ASTEROID_LARGE_SIZE <= b.height <= POSITION_LIMIT / 2
}

/// An asteroid a tick accepts.
pub open spec fn asteroid_tick_ok(a: Asteroid, b: Bounds) -> bool {
    &&& 0 <= a.position.x <= 2 * b.width
    &&& 0 <= a.position.y <= 2 * b.height
    &&& -TICK_SPEED_LIMIT <= a.speed.x <= TICK_SPEED_LIMIT
    &&& -TICK_SPEED_LIMIT <= a.speed.y <= TICK_SPEED_LIMIT
    &&& 0 <= a.size <= POSITION_LIMIT
    &&& -COORD_LIMIT + ROTATION_STEP <= a.rotation <= COORD_LIMIT - ROTATION_STEP
    &&& -TIME_LIMIT <= a.birth_time <= TIME_LIMIT
}

/// What a moved asteroid is sure to satisfy.
pub open spec fn asteroid_after_move_ok(a: Asteroid, b: Bounds) -> bool {
    &&& 0 <= a.position.x <= 2 * b.width
    &&& 0 <= a.position.y <= 2 * b.height
    &&& -TICK_SPEED_LIMIT <= a.speed.x <= TICK_SPEED_LIMIT
    &&& -TICK_SPEED_LIMIT <= a.speed.y <= TICK_SPEED_LIMIT
    &&& 0 <= a.size <= POSITION_LIMIT
    &&& -TIME_LIMIT <= a.birth_time <= TIME_LIMIT
}

/// A missile a tick accepts.
pub open spec fn missile_tick_ok(m: Missile, b: Bounds) -> bool {
    &&& 0 <= m.position.x <= 2 * b.width
    &&& 0 <= m.position.y <= 2 * b.height
    &&& -MISSILE_TICK_SPEED_LIMIT <= m.speed.x <= MISSILE_TICK_SPEED_LIMIT
    &&& -MISSILE_TICK_SPEED_LIMIT <= m.speed.y <= MISSILE_TICK_SPEED_LIMIT
    &&& 0 <= m.size <= FACTOR_LIMIT
}

/// A black hole a tick accepts.
pub open spec fn blackhole_tick_ok(bh: BlackHole, b: Bounds) -> bool {
    &&& 0 <= bh.position.x <= 2 * b.width
    &&& 0 <= bh.position.y <= 2 * b.height
    &&& 0 <= bh.size <= POSITION_LIMIT
    &&& 0 <= bh.rotation <= COORD_LIMIT - BLACKHOLE_ROTATION_STEP
}

/// A ship a tick accepts: inside the arithmetic bounds and still alive.
pub open spec fn ship_tick_ok(s: Spaceship, b: Bounds) -> bool {
    &&& 0 <= s.position.x <= 2 * b.width
    &&& 0 <= s.position.y <= 2 * b.height
    &&& -SHIP_SPEED_LIMIT <= s.speed.x <= SHIP_SPEED_LIMIT
    &&& -SHIP_SPEED_LIMIT <= s.speed.y <= SHIP_SPEED_LIMIT
    &&& 0 <= s.size <= POSITION_LIMIT
    &&& -COORD_LIMIT + SPACE_SHIP_TURN <= s.rotation <= COORD_LIMIT - SPACE_SHIP_TURN
    &&& s.shield >= 1
    &&& -TIME_LIMIT <= s.last_collision_time <= TIME_LIMIT
}

/// A direction vector of at most unit magnitude per component.
pub open spec fn dir_ok(v: Vec2i) -> bool {
    -SCALE <= v.x <= SCALE && -SCALE <= v.y <= SCALE
}

/// An asteroid after one movement step with the rotation applied.
pub open spec fn moved_asteroid(a: Asteroid, factor: int, bounds: Bounds) -> Asteroid {
    Asteroid {
        position: advance_pos_spec(a.position, a.speed, factor, bounds),
        rotation: rotation_step_spec(a.rotation as int, true) as i64,
        ..a
    }
}

/// A whole asteroid collection after one movement step.
pub open spec fn moved_asteroids_spec(s: Seq<Asteroid>, factor: int, bounds: Bounds) -> Seq<
    Asteroid,
> {
    s.map_values(|a: Asteroid| moved_asteroid(a, factor, bounds))
}

/// A missile after one movement step.
pub open spec fn moved_missile(m: Missile) -> Missile {
    Missile {
        position: Vec2i {
            x: (m.position.x + m.speed.x) as i64,
            y: (m.position.y + m.speed.y) as i64,
        },
        ..m
    }
}

/// A whole missile collection after one movement step.
pub open spec fn moved_missiles_spec(s: Seq<Missile>) -> Seq<Missile> {
    s.map_values(|m: Missile| moved_missile(m))
}

/// A black hole after one cosmetic rotation step.
pub open spec fn rotated_hole(b: BlackHole) -> BlackHole {
    BlackHole { rotation: (b.rotation + BLACKHOLE_ROTATION_STEP) as i64, ..b }
}

/// A whole black hole collection after one rotation step.
pub open spec fn rotated_holes_spec(s: Seq<BlackHole>) -> Seq<BlackHole> {
    s.map_values(|b: BlackHole| rotated_hole(b))
}

/// The missile collection after the tick's shot, if one was fired: a fresh
/// missile at the ship, flying along `aim`, scaled by the shot factor.
pub open spec fn shot_missiles_spec(
    ms: Seq<Missile>,
    shot: bool,
    ship_pos: Vec2i,
    aim: Vec2i,
) -> Seq<Missile> {
    if shot {
        ms.push(
            Missile {
                position: ship_pos,
                speed: Vec2i {
                    x: scale_div_spec(aim.x * MISSILE_SHOT_FACTOR) as i64,
                    y: scale_div_spec(aim.y * MISSILE_SHOT_FACTOR) as i64,
                },
                size: MISSILE_SIZE,
                thickness: MISSILE_THICKNESS,
            },
        )
    } else {
        ms
    }
}

/// The spawn gate of one tick: the round is young enough and the interval
/// since the last spawn has passed.
pub open spec fn spawn_due(time: int, spawn_interval_ms: int, last_add: int) -> bool {
    time < SPAWN_CUTOFF_MS && time - spawn_interval_ms > last_add
}

/// One classic-mode tick: spawn policy, asteroid movement, ship movement
/// along the supplied facing, ship-asteroid shield handling, ship-black-hole
/// defeat, the shoot gate, missile movement and culling, and the missile
/// strike pass. No asteroid-asteroid resolution runs in this mode: splitting
/// and fusing colliding asteroids into black holes is a modern-mode event.
/// Returns the defeat signal and the tick's sound events.
#[verifier::rlimit(50)]
pub fn update_classic(
    asteroids: &mut Vec<Asteroid>,
    blackholes: &mut Vec<BlackHole>,
    last_add_asteroid: &mut i64,
    spaceship: &mut Spaceship,
    time: i64,
    last_shoot: &mut i64,
    missiles: &mut Vec<Missile>,
    inputs: ClassicInputs,
    spawn_interval_ms: i64,
    speed_factor: i64,
    bounds: Bounds,
) -> (r: TickOutcome)
    requires
        tick_bounds_ok(bounds),
        0 <= time <= TIME_LIMIT,
        -TIME_LIMIT <= *old(last_add_asteroid) <= TIME_LIMIT,
        -TIME_LIMIT <= *old(last_shoot) <= TIME_LIMIT,
        0 <= spawn_interval_ms <= TIME_LIMIT,
        0 <= speed_factor <= TICK_FACTOR_LIMIT,
        ship_tick_ok(*old(spaceship), bounds),
        dir_ok(inputs.facing),
        dir_ok(inputs.facing_after_turn),
        forall|k: int|
            0 <= k < old(asteroids)@.len() ==> asteroid_tick_ok(
                #[trigger] old(asteroids)@[k],
                bounds,
            ),
        forall|k: int|
            0 <= k < old(missiles)@.len() ==> missile_tick_ok(#[trigger] old(missiles)@[k], bounds),
        forall|k: int|
            0 <= k < old(blackholes)@.len() ==> blackhole_tick_ok(
                #[trigger] old(blackholes)@[k],
                bounds,
            ),
        old(spaceship).score + 100 * (old(missiles)@.len() + 1) <= u32::MAX,
    ensures
        final(blackholes)@ == old(blackholes)@,
        final(spaceship).shield <= old(spaceship).shield,
        old(spaceship).shield - 1 <= final(spaceship).shield,
        r.shield_hit == (final(spaceship).shield < old(spaceship).shield),
        final(spaceship).score >= old(spaceship).score,
        final(spaceship).size == old(spaceship).size,
        final(spaceship).speed == vel_step_spec(
            old(spaceship).speed,
            classic_thrust_spec(inputs.facing, inputs.up, inputs.down),
        ),
        final(spaceship).position == crate::geom::bound_pos_spec(
            Vec2i {
                x: (old(spaceship).position.x + final(spaceship).speed.x) as i64,
                y: (old(spaceship).position.y + final(spaceship).speed.y) as i64,
            },
            bounds.width as int,
            bounds.height as int,
        ),
        final(spaceship).rotation == turn_spec(
            old(spaceship).rotation as int,
            inputs.left,
            inputs.right,
        ),
        r.defeat ==> final(spaceship).shield == 0 || hits_any_hole(
            final(spaceship).position,
            final(spaceship).size,
            final(blackholes)@,
        ),
        hits_any_hole(final(spaceship).position, final(spaceship).size, final(blackholes)@)
            ==> r.defeat,
        !r.defeat ==> final(spaceship).shield >= 1,
        r.defeat ==> final(missiles)@ == old(missiles)@ && *final(last_shoot) == *old(last_shoot)
            && r.booms == 0 && !r.shot,
        !r.defeat ==> r.shot == (inputs.fire && time - *old(last_shoot) > SHOOT_COOLDOWN_MS),
        r.shot ==> *final(last_shoot) == time,
        !r.shot ==> *final(last_shoot) == *old(last_shoot),
        spawn_due(time as int, spawn_interval_ms as int, *old(last_add_asteroid) as int)
            ==> *final(last_add_asteroid) == time,
        !spawn_due(time as int, spawn_interval_ms as int, *old(last_add_asteroid) as int)
            ==> *final(last_add_asteroid) == *old(last_add_asteroid),
        exists|sp: Seq<Asteroid>|
            #![trigger sp.len()]
            {
                &&& (spawn_due(
                    time as int,
                    spawn_interval_ms as int,
                    *old(last_add_asteroid) as int,
                ) ==> sp.len() == old(asteroids)@.len() + 1 && sp.take(old(asteroids)@.len() as int)
                    == old(asteroids)@ && valid_spawn(sp.last(), time as int, bounds))
                &&& (!spawn_due(
                    time as int,
                    spawn_interval_ms as int,
                    *old(last_add_asteroid) as int,
                ) ==> sp == old(asteroids)@)
                &&& ({
                    let hit = hits_any_asteroid(
                        final(spaceship).position,
                        final(spaceship).size,
                        moved_asteroids_spec(sp, speed_factor as int, bounds),
                    );
                    let lands = shield_decrements(*old(spaceship), time as int);
                    &&& (hit && lands ==> final(spaceship).shield == old(spaceship).shield - 1
                        && final(spaceship).last_collision_time == time)
                    &&& (hit && !lands ==> final(spaceship).shield == old(spaceship).shield
                        && final(spaceship).last_collision_time
                        == old(spaceship).last_collision_time)
                    &&& (!hit ==> final(spaceship).shield == old(spaceship).shield
                        && final(spaceship).last_collision_time
                        == old(spaceship).last_collision_time)
                    &&& r.shield_hit == (hit && lands)
                    &&& r.defeat == ((hit && lands && old(spaceship).shield == 1)
                        || hits_any_hole(
                        final(spaceship).position,
                        final(spaceship).size,
                        final(blackholes)@,
                    ))
                })
                &&& (r.defeat ==> final(asteroids)@ == moved_asteroids_spec(
                    sp,
                    speed_factor as int,
                    bounds,
                ))
                &&& (!r.defeat ==> missile_pass_rel(
                    cull_spec(
                        moved_missiles_spec(
                            shot_missiles_spec(
                                old(missiles)@,
                                r.shot,
                                final(spaceship).position,
                                inputs.facing_after_turn,
                            ),
                        ),
                        bounds,
                    ),
                    moved_asteroids_spec(sp, speed_factor as int, bounds),
                    old(spaceship).score as int,
                    0,
                    final(missiles)@,
                    final(asteroids)@,
                    final(spaceship).score as int,
                    r.booms as int,
                    time as int,
                ))
            },
{
    let ghost ms0 = missiles@;
    let ghost as0 = asteroids@;
    let ghost ship0 = *spaceship;
    if time < SPAWN_CUTOFF_MS {
        Asteroid::push_or_dont(asteroids, last_add_asteroid, time, spawn_interval_ms, bounds);
    }
    let ghost sp = asteroids@;
    proof {
        assert forall|k: int| 0 <= k < sp.len() implies asteroid_tick_ok(
            #[trigger] sp[k],
            bounds,
        ) by {
            if k < as0.len() {
                assert(sp[k] == as0[k]);
            }
        }
    }
    move_all_asteroids(asteroids, speed_factor, bounds);
    let ghost mid = asteroids@;
    spaceship.update_position_classic(
        inputs.up,
        inputs.down,
        inputs.left,
        inputs.right,
        inputs.facing,
        bounds,
    );
    proof {
        lemma_wrapped_in_double_box(
            Vec2i {
                x: (ship0.position.x + spaceship.speed.x) as i64,
                y: (ship0.position.y + spaceship.speed.y) as i64,
            },
            spaceship.position,
            bounds,
            SHIP_SPEED_LIMIT as int,
        );
        assert(ship_geom_ok(*spaceship));
    }
    let ghost ship1 = *spaceship;
    let outcome = handle_ship_collisions(spaceship, asteroids, blackholes, time);
    let dead = outcome.0;
    let shield_hit = outcome.1;
    proof {
        assert(shield_decrements(ship1, time as int) == shield_decrements(ship0, time as int));
    }
    if dead {
        proof {
            // Seed the trigger of the existential postcondition with the
            // spawn witness.
            assert(sp.len() == sp.len());
            assert(asteroids@ == moved_asteroids_spec(sp, speed_factor as int, bounds));
        }
        return TickOutcome { defeat: true, shot: false, booms: 0, shield_hit };
    }
    let mut shot = false;
    if Missile::do_i_shoot_classic(inputs.fire, *last_shoot, time) {
        let m = Missile::new_missile_classic(
            spaceship,
            MISSILE_SHOT_FACTOR,
            inputs.facing_after_turn,
        );
        proof {
            assert(-SCALE * MISSILE_SHOT_FACTOR <= inputs.facing_after_turn.x
                * MISSILE_SHOT_FACTOR <= SCALE * MISSILE_SHOT_FACTOR && -SCALE
                * MISSILE_SHOT_FACTOR <= inputs.facing_after_turn.y * MISSILE_SHOT_FACTOR <= SCALE
                * MISSILE_SHOT_FACTOR) by (nonlinear_arith)
                requires
                    dir_ok(inputs.facing_after_turn);
            lemma_scale_div_bound(inputs.facing_after_turn.x * MISSILE_SHOT_FACTOR, MISSILE_SHOT_FACTOR as int);
            lemma_scale_div_bound(inputs.facing_after_turn.y * MISSILE_SHOT_FACTOR, MISSILE_SHOT_FACTOR as int);
        }
        missiles.push(m);
        *last_shoot = time;
        shot = true;
    }
    let ghost shotms = missiles@;
    proof {
        assert(shotms =~= shot_missiles_spec(ms0, shot, spaceship.position, inputs.facing_after_turn));
        assert forall|k: int| 0 <= k < shotms.len() implies 0 <= (#[trigger] shotms[k]).position.x
            <= 2 * bounds.width && 0 <= shotms[k].position.y <= 2 * bounds.height
            && -MISSILE_TICK_SPEED_LIMIT <= shotms[k].speed.x <= MISSILE_TICK_SPEED_LIMIT
            && -MISSILE_TICK_SPEED_LIMIT <= shotms[k].speed.y <= MISSILE_TICK_SPEED_LIMIT && 0
            <= shotms[k].size <= FACTOR_LIMIT by {
            if k < ms0.len() {
                assert(shotms[k] == ms0[k]);
            }
        }
    }
    move_all_missiles(missiles, bounds);
    let ghost mvms = missiles@;
    Missile::clear_missiles(missiles, bounds);
    proof {
        lemma_cull_len(mvms, bounds);
        assert forall|k: int| 0 <= k < missiles@.len() implies missile_geom_ok(
            #[trigger] missiles@[k],
        ) by {
            let m = missiles@[k];
            assert(missile_in_play(m, bounds));
            let j = choose|j: int| 0 <= j < mvms.len() && mvms[j] == m;
            assert(mvms[j] == moved_missile(shotms[j]));
        }
        assert forall|k: int| 0 <= k < asteroids@.len() implies asteroid_target_ok(
            #[trigger] asteroids@[k],
        ) by {
            assert(asteroid_after_move_ok(asteroids@[k], bounds));
        }
    }
    let booms = Missile::what_collide_missile(missiles, asteroids, spaceship, time);
    proof {
        // Seed the trigger of the existential postcondition with the spawn
        // witness, and rewrite the strike pass's input into its stated form.
        assert(sp.len() == sp.len());
        assert(cull_spec(mvms, bounds) == cull_spec(
            moved_missiles_spec(
                shot_missiles_spec(ms0, shot, spaceship.position, inputs.facing_after_turn),
            ),
            bounds,
        ));
    }
    TickOutcome { defeat: false, shot, booms, shield_hit }
}

/// Moves every asteroid one step (with its spin) and returns how many
/// moved.
fn move_all_asteroids(asteroids: &mut Vec<Asteroid>, speed_factor: i64, bounds: Bounds) -> (n:
    usize)
    requires
        tick_bounds_ok(bounds),
        0 <= speed_factor <= TICK_FACTOR_LIMIT,
        forall|k: int|
            0 <= k < old(asteroids)@.len() ==> asteroid_tick_ok(
                #[trigger] old(asteroids)@[k],
                bounds,
            ),
    ensures
        n == old(asteroids)@.len(),
        final(asteroids)@ == moved_asteroids_spec(old(asteroids)@, speed_factor as int, bounds),
        forall|k: int|
            0 <= k < final(asteroids)@.len() ==> asteroid_after_move_ok(
                #[trigger] final(asteroids)@[k],
                bounds,
            ),
{
    let ghost sp = asteroids@;
    let mut t: usize = 0;
    while t < asteroids.len()
        invariant
            t <= sp.len(),
            asteroids@.len() == sp.len(),
            tick_bounds_ok(bounds),
            0 <= speed_factor <= TICK_FACTOR_LIMIT,
            forall|k: int| t <= k < sp.len() ==> asteroids@[k] == sp[k],
            forall|k: int| 0 <= k < sp.len() ==> asteroid_tick_ok(#[trigger] sp[k], bounds),
            forall|k: int|
                0 <= k < t ==> asteroids@[k] == moved_asteroid(
                    sp[k],
                    speed_factor as int,
                    bounds,
                ),
            forall|k: int|
                0 <= k < t ==> asteroid_after_move_ok(#[trigger] asteroids@[k], bounds),
        decreases sp.len() - t,
    {
        let mut a = asteroids[t];
        proof {
            assert(a == sp[t as int]);
            assert(-TICK_SPEED_LIMIT * TICK_FACTOR_LIMIT <= a.speed.x * speed_factor
                <= TICK_SPEED_LIMIT * TICK_FACTOR_LIMIT && -TICK_SPEED_LIMIT * TICK_FACTOR_LIMIT
                <= a.speed.y * speed_factor <= TICK_SPEED_LIMIT * TICK_FACTOR_LIMIT)
                by (nonlinear_arith)
                requires
                    -TICK_SPEED_LIMIT <= a.speed.x <= TICK_SPEED_LIMIT,
                    -TICK_SPEED_LIMIT <= a.speed.y <= TICK_SPEED_LIMIT,
                    0 <= speed_factor <= TICK_FACTOR_LIMIT;
            lemma_scale_div_bound(a.speed.x * speed_factor, 20000);
            lemma_scale_div_bound(a.speed.y * speed_factor, 20000);
        }
        let ghost pre = a;
        a.move_asteroid(true, speed_factor, bounds);
        proof {
            lemma_wrapped_in_double_box(
                Vec2i {
                    x: (pre.position.x + scale_div_spec(pre.speed.x * speed_factor)) as i64,
                    y: (pre.position.y + scale_div_spec(pre.speed.y * speed_factor)) as i64,
                },
                a.position,
                bounds,
                20000,
            );
        }
        asteroids.set(t, a);
        t = t + 1;
    }
    proof {
        assert(asteroids@ =~= moved_asteroids_spec(sp, speed_factor as int, bounds));
    }
    t
}

/// Moves every missile one step.
fn move_all_missiles(missiles: &mut Vec<Missile>, bounds: Bounds)
    requires
        tick_bounds_ok(bounds),
        forall|k: int|
            0 <= k < old(missiles)@.len() ==> 0 <= (#[trigger] old(missiles)@[k]).position.x <= 2
                * bounds.width && 0 <= old(missiles)@[k].position.y <= 2 * bounds.height
                && -MISSILE_TICK_SPEED_LIMIT <= old(missiles)@[k].speed.x
                <= MISSILE_TICK_SPEED_LIMIT && -MISSILE_TICK_SPEED_LIMIT
                <= old(missiles)@[k].speed.y <= MISSILE_TICK_SPEED_LIMIT,
    ensures
        final(missiles)@ == moved_missiles_spec(old(missiles)@),
{
    let ghost s0 = missiles@;
    let mut t: usize = 0;
    while t < missiles.len()
        invariant
            t <= s0.len(),
            missiles@.len() == s0.len(),
            tick_bounds_ok(bounds),
            forall|k: int| t <= k < s0.len() ==> missiles@[k] == s0[k],
            forall|k: int|
                0 <= k < s0.len() ==> 0 <= (#[trigger] s0[k]).position.x <= 2 * bounds.width && 0
                    <= s0[k].position.y <= 2 * bounds.height && -MISSILE_TICK_SPEED_LIMIT
                    <= s0[k].speed.x <= MISSILE_TICK_SPEED_LIMIT && -MISSILE_TICK_SPEED_LIMIT
                    <= s0[k].speed.y <= MISSILE_TICK_SPEED_LIMIT,
            forall|k: int| 0 <= k < t ==> missiles@[k] == moved_missile(s0[k]),
        decreases s0.len() - t,
    {
        let mut m = missiles[t];
        proof {
            assert(m == s0[t as int]);
        }
        m.move_missile();
        missiles.set(t, m);
        t = t + 1;
    }
    proof {
        assert(missiles@ =~= moved_missiles_spec(s0));
    }
}

/// A coordinate wrapped against a play area at least as wide as the step
/// lands inside twice the play area.
proof fn lemma_wrapped_in_double_box(c: Vec2i, w: Vec2i, bounds: Bounds, step: int)
    requires
        tick_bounds_ok(bounds),
        step <= ASTEROID_LARGE_SIZE,
        -step <= c.x <= 2 * bounds.width + step,
        -step <= c.y <= 2 * bounds.height + step,
        w == crate::geom::bound_pos_spec(c, bounds.width as int, bounds.height as int),
    ensures
        0 <= w.x <= 2 * bounds.width,
        0 <= w.y <= 2 * bounds.height,
{
}

/// One modern-mode tick: spawn policy, asteroid movement, the
/// asteroid-asteroid resolution pass (splits and rare fusions into black
/// holes — this mode alone runs it), black-hole spin, eight-way ship
/// movement, ship-asteroid shield handling, ship-black-hole defeat, the
/// mouse-aimed shoot gate, missile movement and culling, and the missile
/// strike pass.
#[verifier::rlimit(100)]
pub fn update_modern(
    asteroids: &mut Vec<Asteroid>,
    blackholes: &mut Vec<BlackHole>,
    last_add_asteroid: &mut i64,
    spaceship: &mut Spaceship,
    time: i64,
    last_shoot: &mut i64,
    missiles: &mut Vec<Missile>,
    inputs: ModernInputs,
    spawn_interval_ms: i64,
    speed_factor: i64,
    bounds: Bounds,
    policy: FusionPolicy,
) -> (r: TickOutcome)
    requires
        tick_bounds_ok(bounds),
        0 <= time <= TIME_LIMIT,
        -TIME_LIMIT <= *old(last_add_asteroid) <= TIME_LIMIT,
        -TIME_LIMIT <= *old(last_shoot) <= TIME_LIMIT,
        0 <= spawn_interval_ms <= TIME_LIMIT,
        0 <= speed_factor <= TICK_FACTOR_LIMIT,
        ship_tick_ok(*old(spaceship), bounds),
        -POSITION_LIMIT <= inputs.mouse.x <= POSITION_LIMIT,
        -POSITION_LIMIT <= inputs.mouse.y <= POSITION_LIMIT,
        forall|k: int|
            0 <= k < old(asteroids)@.len() ==> asteroid_tick_ok(
                #[trigger] old(asteroids)@[k],
                bounds,
            ),
        forall|k: int|
            0 <= k < old(missiles)@.len() ==> missile_tick_ok(#[trigger] old(missiles)@[k], bounds),
        forall|k: int|
            0 <= k < old(blackholes)@.len() ==> blackhole_tick_ok(
                #[trigger] old(blackholes)@[k],
                bounds,
            ),
        old(spaceship).score + 100 * (old(missiles)@.len() + 1) <= u32::MAX,
    ensures
        final(blackholes)@.len() >= old(blackholes)@.len(),
        final(spaceship).shield <= old(spaceship).shield,
        old(spaceship).shield - 1 <= final(spaceship).shield,
        r.shield_hit == (final(spaceship).shield < old(spaceship).shield),
        final(spaceship).score >= old(spaceship).score,
        final(spaceship).size == old(spaceship).size,
        final(spaceship).speed == vel_step_spec(
            old(spaceship).speed,
            crate::spaceship::modern_thrust_spec(inputs.up, inputs.down, inputs.left, inputs.right),
        ),
        final(spaceship).position == crate::geom::bound_pos_spec(
            Vec2i {
                x: (old(spaceship).position.x + final(spaceship).speed.x) as i64,
                y: (old(spaceship).position.y + final(spaceship).speed.y) as i64,
            },
            bounds.width as int,
            bounds.height as int,
        ),
        final(spaceship).rotation == old(spaceship).rotation,
        r.defeat ==> final(spaceship).shield == 0 || hits_any_hole(
            final(spaceship).position,
            final(spaceship).size,
            final(blackholes)@,
        ),
        hits_any_hole(final(spaceship).position, final(spaceship).size, final(blackholes)@)
            ==> r.defeat,
        !r.defeat ==> final(spaceship).shield >= 1,
        r.defeat ==> final(missiles)@ == old(missiles)@ && *final(last_shoot) == *old(last_shoot)
            && r.booms == 0 && !r.shot,
        !r.defeat ==> r.shot == (inputs.fire && time - *old(last_shoot) > SHOOT_COOLDOWN_MS),
        r.shot ==> *final(last_shoot) == time,
        !r.shot ==> *final(last_shoot) == *old(last_shoot),
        spawn_due(time as int, spawn_interval_ms as int, *old(last_add_asteroid) as int)
            ==> *final(last_add_asteroid) == time,
        !spawn_due(time as int, spawn_interval_ms as int, *old(last_add_asteroid) as int)
            ==> *final(last_add_asteroid) == *old(last_add_asteroid),
        exists|sp: Seq<Asteroid>, pas: Seq<Asteroid>, pbh: Seq<BlackHole>, aim: Vec2i|
            #![trigger sp.len(), pas.len(), pbh.len(), aim.x]
            {
                &&& (spawn_due(
                    time as int,
                    spawn_interval_ms as int,
                    *old(last_add_asteroid) as int,
                ) ==> sp.len() == old(asteroids)@.len() + 1 && sp.take(old(asteroids)@.len() as int)
                    == old(asteroids)@ && valid_spawn(sp.last(), time as int, bounds))
                &&& (!spawn_due(
                    time as int,
                    spawn_interval_ms as int,
                    *old(last_add_asteroid) as int,
                ) ==> sp == old(asteroids)@)
                &&& asteroid_pass_post(
                    moved_asteroids_spec(sp, speed_factor as int, bounds),
                    old(blackholes)@,
                    pas,
                    pbh,
                    time as int,
                    policy,
                )
                &&& final(blackholes)@ == rotated_holes_spec(pbh)
                &&& ({
                    let hit = hits_any_asteroid(
                        final(spaceship).position,
                        final(spaceship).size,
                        pas,
                    );
                    let lands = shield_decrements(*old(spaceship), time as int);
                    &&& (hit && lands ==> final(spaceship).shield == old(spaceship).shield - 1
                        && final(spaceship).last_collision_time == time)
                    &&& (hit && !lands ==> final(spaceship).shield == old(spaceship).shield
                        && final(spaceship).last_collision_time
                        == old(spaceship).last_collision_time)
                    &&& (!hit ==> final(spaceship).shield == old(spaceship).shield
                        && final(spaceship).last_collision_time
                        == old(spaceship).last_collision_time)
                    &&& r.shield_hit == (hit && lands)
                    &&& r.defeat == ((hit && lands && old(spaceship).shield == 1)
                        || hits_any_hole(
                        final(spaceship).position,
                        final(spaceship).size,
                        final(blackholes)@,
                    ))
                })
                &&& (r.defeat ==> final(asteroids)@ == pas)
                &&& (!r.defeat && r.shot ==> ((inputs.mouse != final(spaceship).position
                    ==> crate::geom::unit_toward(
                    Vec2i {
                        x: (inputs.mouse.x - final(spaceship).position.x) as i64,
                        y: (inputs.mouse.y - final(spaceship).position.y) as i64,
                    },
                    aim,
                )) && (inputs.mouse == final(spaceship).position ==> aim == (Vec2i {
                    x: SCALE,
                    y: 0,
                }))))
                &&& (!r.defeat ==> missile_pass_rel(
                    cull_spec(
                        moved_missiles_spec(
                            shot_missiles_spec(
                                old(missiles)@,
                                r.shot,
                                final(spaceship).position,
                                aim,
                            ),
                        ),
                        bounds,
                    ),
                    pas,
                    old(spaceship).score as int,
                    0,
                    final(missiles)@,
                    final(asteroids)@,
                    final(spaceship).score as int,
                    r.booms as int,
                    time as int,
                ))
            },
{
    let ghost ms0 = missiles@;
    let ghost as0 = asteroids@;
    let ghost bh0 = blackholes@;
    let ghost ship0 = *spaceship;
    if time < SPAWN_CUTOFF_MS {
        Asteroid::push_or_dont(asteroids, last_add_asteroid, time, spawn_interval_ms, bounds);
    }
    let ghost sp = asteroids@;
    proof {
        assert forall|k: int| 0 <= k < sp.len() implies asteroid_tick_ok(
            #[trigger] sp[k],
            bounds,
        ) by {
            if k < as0.len() {
                assert(sp[k] == as0[k]);
            }
        }
    }
    move_all_asteroids(asteroids, speed_factor, bounds);
    let ghost mid = asteroids@;
    proof {
        assert forall|k: int| 0 <= k < mid.len() implies asteroid_geom_ok(#[trigger] mid[k]) by {
            assert(asteroid_after_move_ok(mid[k], bounds));
        }
    }
    Asteroid::what_collide_asteroids(asteroids, blackholes, time, policy);
    let ghost pas = asteroids@;
    let ghost pbh = blackholes@;
    proof {
        assert forall|k: int| 0 <= k < pas.len() implies asteroid_after_move_ok(
            #[trigger] pas[k],
            bounds,
        ) by {
            assert(asteroid_from_pass(mid, pas[k], time as int));
            if exists|k0: int| 0 <= k0 < mid.len() && #[trigger] mid[k0] == pas[k] {
                let k0 = choose|k0: int| 0 <= k0 < mid.len() && #[trigger] mid[k0] == pas[k];
                assert(asteroid_after_move_ok(mid[k0], bounds));
            } else {
                let k0 = choose|k0: int|
                    0 <= k0 < mid.len() && valid_fragment(#[trigger] mid[k0], pas[k], time as int);
                assert(asteroid_after_move_ok(mid[k0], bounds));
            }
        }
        assert forall|k: int| 0 <= k < pbh.len() implies 0 <= (#[trigger] pbh[k]).position.x <= 2
            * bounds.width && 0 <= pbh[k].position.y <= 2 * bounds.height && 0 <= pbh[k].size
            <= POSITION_LIMIT && 0 <= pbh[k].rotation <= COORD_LIMIT - BLACKHOLE_ROTATION_STEP by {
            if k < bh0.len() {
                assert(pbh[k] == bh0[k]);
                assert(blackhole_tick_ok(bh0[k], bounds));
            } else {
                assert(crate::asteroid::blackhole_from_pass(mid, pbh[k]));
                let k0 = choose|k0: int|
                    0 <= k0 < mid.len() && pbh[k] == (BlackHole {
                        position: (#[trigger] mid[k0]).position,
                        size: crate::blackhole::BLACKHOLE_SIZE,
                        rotation: 0,
                    });
                assert(asteroid_after_move_ok(mid[k0], bounds));
            }
        }
    }
    rotate_all_holes(blackholes);
    spaceship.update_position_modern(inputs.up, inputs.down, inputs.left, inputs.right, bounds);
    proof {
        lemma_wrapped_in_double_box(
            Vec2i {
                x: (ship0.position.x + spaceship.speed.x) as i64,
                y: (ship0.position.y + spaceship.speed.y) as i64,
            },
            spaceship.position,
            bounds,
            SHIP_SPEED_LIMIT as int,
        );
        assert(ship_geom_ok(*spaceship));
        assert forall|k: int| 0 <= k < asteroids@.len() implies asteroid_geom_ok(
            #[trigger] asteroids@[k],
        ) by {
            assert(asteroid_after_move_ok(pas[k], bounds));
        }
        assert forall|k: int| 0 <= k < blackholes@.len() implies crate::spaceship::blackhole_geom_ok(
            #[trigger] blackholes@[k],
        ) by {
            assert(blackholes@[k] == rotated_hole(pbh[k]));
        }
    }
    let ghost ship1 = *spaceship;
    let outcome = handle_ship_collisions(spaceship, asteroids, blackholes, time);
    let dead = outcome.0;
    let shield_hit = outcome.1;
    proof {
        assert(shield_decrements(ship1, time as int) == shield_decrements(ship0, time as int));
    }
    if dead {
        proof {
            // Seed the triggers of the existential postcondition: the spawn
            // and pass witnesses, and a placeholder aim (no shot happened on
            // this path).
            let ghost aimw = Vec2i { x: SCALE, y: 0 };
            assert(sp.len() == sp.len() && pas.len() == pas.len() && pbh.len() == pbh.len()
                && aimw.x == aimw.x);
            let hitg = hits_any_asteroid(ship1.position, ship1.size, pas);
            let landsg = shield_decrements(ship0, time as int);
            assert(spaceship.position == ship1.position && spaceship.size == ship1.size);
            assert(hits_any_asteroid(spaceship.position, spaceship.size, pas) == hitg);
            assert(hits_any_hole(spaceship.position, spaceship.size, blackholes@)
                == hits_any_hole(ship1.position, ship1.size, blackholes@));
            assert(dead == ((hitg && landsg && ship0.shield == 1) || hits_any_hole(
                ship1.position,
                ship1.size,
                blackholes@,
            )));
            assert(hitg && landsg ==> spaceship.shield == ship0.shield - 1
                && spaceship.last_collision_time == time);
            assert(!(hitg && landsg) ==> spaceship.shield == ship0.shield
                && spaceship.last_collision_time == ship0.last_collision_time);
            assert(shield_hit == (hitg && landsg));
            assert(asteroids@ == pas);
            assert(blackholes@ == rotated_holes_spec(pbh));
        }
        return TickOutcome { defeat: true, shot: false, booms: 0, shield_hit };
    }
    let mut shot = false;
    let ghost mut aim: Vec2i = Vec2i { x: SCALE as i64, y: 0 };
    if Missile::do_i_shoot_modern(inputs.fire, *last_shoot, time) {
        let m = Missile::new_missile_modern(spaceship, MISSILE_SHOT_FACTOR, inputs.mouse);
        proof {
            aim = choose|a: Vec2i|
                #![trigger a.x]
                {
                    &&& (inputs.mouse != spaceship.position ==> crate::geom::unit_toward(
                        Vec2i {
                            x: (inputs.mouse.x - spaceship.position.x) as i64,
                            y: (inputs.mouse.y - spaceship.position.y) as i64,
                        },
                        a,
                    ))
                    &&& (inputs.mouse == spaceship.position ==> a == (Vec2i { x: SCALE, y: 0 }))
                    &&& m.speed == (Vec2i {
                        x: scale_div_spec(a.x * MISSILE_SHOT_FACTOR) as i64,
                        y: scale_div_spec(a.y * MISSILE_SHOT_FACTOR) as i64,
                    })
                };
            assert(-SCALE <= aim.x <= SCALE && -SCALE <= aim.y <= SCALE);
            assert(-SCALE * MISSILE_SHOT_FACTOR <= aim.x * MISSILE_SHOT_FACTOR <= SCALE
                * MISSILE_SHOT_FACTOR && -SCALE * MISSILE_SHOT_FACTOR <= aim.y
                * MISSILE_SHOT_FACTOR <= SCALE * MISSILE_SHOT_FACTOR) by (nonlinear_arith)
                requires
                    -SCALE <= aim.x <= SCALE,
                    -SCALE <= aim.y <= SCALE;
            lemma_scale_div_bound(aim.x * MISSILE_SHOT_FACTOR, MISSILE_SHOT_FACTOR as int);
            lemma_scale_div_bound(aim.y * MISSILE_SHOT_FACTOR, MISSILE_SHOT_FACTOR as int);
        }
        missiles.push(m);
        *last_shoot = time;
        shot = true;
    }
    let ghost shotms = missiles@;
    proof {
        assert(shotms =~= shot_missiles_spec(ms0, shot, spaceship.position, aim));
        assert forall|k: int| 0 <= k < shotms.len() implies 0 <= (#[trigger] shotms[k]).position.x
            <= 2 * bounds.width && 0 <= shotms[k].position.y <= 2 * bounds.height
            && -MISSILE_TICK_SPEED_LIMIT <= shotms[k].speed.x <= MISSILE_TICK_SPEED_LIMIT
            && -MISSILE_TICK_SPEED_LIMIT <= shotms[k].speed.y <= MISSILE_TICK_SPEED_LIMIT && 0
            <= shotms[k].size <= FACTOR_LIMIT by {
            if k < ms0.len() {
                assert(shotms[k] == ms0[k]);
            }
        }
    }
    move_all_missiles(missiles, bounds);
    let ghost mvms = missiles@;
    Missile::clear_missiles(missiles, bounds);
    proof {
        lemma_cull_len(mvms, bounds);
        assert forall|k: int| 0 <= k < missiles@.len() implies missile_geom_ok(
            #[trigger] missiles@[k],
        ) by {
            let m = missiles@[k];
            assert(missile_in_play(m, bounds));
            let j = choose|j: int| 0 <= j < mvms.len() && mvms[j] == m;
            assert(mvms[j] == moved_missile(shotms[j]));
        }
        assert forall|k: int| 0 <= k < asteroids@.len() implies asteroid_target_ok(
            #[trigger] asteroids@[k],
        ) by {
            assert(asteroid_after_move_ok(pas[k], bounds));
        }
    }
    let booms = Missile::what_collide_missile(missiles, asteroids, spaceship, time);
    proof {
        // Seed the triggers of the existential postcondition with the spawn,
        // pass and aim witnesses, and rewrite the strike pass's input into
        // its stated form.
        assert(sp.len() == sp.len() && pas.len() == pas.len() && pbh.len() == pbh.len() && aim.x
            == aim.x);
        assert(cull_spec(mvms, bounds) == cull_spec(
            moved_missiles_spec(shot_missiles_spec(ms0, shot, spaceship.position, aim)),
            bounds,
        ));
        let hitg = hits_any_asteroid(ship1.position, ship1.size, pas);
        let landsg = shield_decrements(ship0, time as int);
        assert(spaceship.position == ship1.position && spaceship.size == ship1.size);
        assert(hits_any_asteroid(spaceship.position, spaceship.size, pas) == hitg);
        assert(hits_any_hole(spaceship.position, spaceship.size, blackholes@) == hits_any_hole(
            ship1.position,
            ship1.size,
            blackholes@,
        ));
        assert(!(hitg && landsg && ship0.shield == 1) && !hits_any_hole(
            ship1.position,
            ship1.size,
            blackholes@,
        ));
    }
    TickOutcome { defeat: false, shot, booms, shield_hit }
}

/// Advances every black hole's cosmetic spin by one step.
fn rotate_all_holes(blackholes: &mut Vec<BlackHole>)
    requires
        forall|k: int|
            0 <= k < old(blackholes)@.len() ==> 0 <= (#[trigger] old(blackholes)@[k]).rotation
                <= COORD_LIMIT,
    ensures
        final(blackholes)@ == rotated_holes_spec(old(blackholes)@),
{
    let ghost s0 = blackholes@;
    let mut t: usize = 0;
    while t < blackholes.len()
        invariant
            t <= s0.len(),
            blackholes@.len() == s0.len(),
            forall|k: int| t <= k < s0.len() ==> blackholes@[k] == s0[k],
            forall|k: int|
                0 <= k < s0.len() ==> 0 <= (#[trigger] s0[k]).rotation <= COORD_LIMIT,
            forall|k: int| 0 <= k < t ==> blackholes@[k] == rotated_hole(s0[k]),
        decreases s0.len() - t,
    {
        let mut b = blackholes[t];
        proof {
            assert(b == s0[t as int]);
        }
        b.update_rotation();
        blackholes.set(t, b);
        t = t + 1;
    }
    proof {
        assert(blackholes@ =~= rotated_holes_spec(s0));
    }
}

/// The ship-collision step shared by both ticks: overlapping any asteroid
/// reports a hit to the shield (which ignores it inside the cooldown
/// window); if the ship survives that, overlapping any black hole ends the
/// round. Returns the defeat signal and whether the shield dropped.
fn handle_ship_collisions(
    spaceship: &mut Spaceship,
    asteroids: &Vec<Asteroid>,
    blackholes: &Vec<BlackHole>,
    time: i64,
) -> (r: (bool, bool))
    requires
        ship_geom_ok(*old(spaceship)),
        old(spaceship).shield >= 1,
        -TIME_LIMIT <= time <= TIME_LIMIT,
        -TIME_LIMIT <= old(spaceship).last_collision_time <= TIME_LIMIT,
        forall|k: int| 0 <= k < asteroids@.len() ==> asteroid_geom_ok(#[trigger] asteroids@[k]),
        forall|k: int|
            0 <= k < blackholes@.len() ==> crate::spaceship::blackhole_geom_ok(
                #[trigger] blackholes@[k],
            ),
    ensures
        ({
            let hit = hits_any_asteroid(old(spaceship).position, old(spaceship).size, asteroids@);
            let lands = shield_decrements(*old(spaceship), time as int);
            &&& final(spaceship).position == old(spaceship).position
            &&& final(spaceship).speed == old(spaceship).speed
            &&& final(spaceship).size == old(spaceship).size
            &&& final(spaceship).rotation == old(spaceship).rotation
            &&& final(spaceship).score == old(spaceship).score
            &&& (hit && lands ==> final(spaceship).shield == old(spaceship).shield - 1
                && final(spaceship).last_collision_time == time)
            &&& (!(hit && lands) ==> final(spaceship).shield == old(spaceship).shield
                && final(spaceship).last_collision_time == old(spaceship).last_collision_time)
            &&& r.1 == (hit && lands)
            &&& r.0 == ((hit && lands && old(spaceship).shield == 1) || hits_any_hole(
                old(spaceship).position,
                old(spaceship).size,
                blackholes@,
            ))
        }),
{
    let collided = spaceship.spaceship_collision(asteroids);
    let mut shield_hit = false;
    let mut dead = false;
    if collided {
        let shield_before = spaceship.shield;
        dead = spaceship.check_shield(time);
        shield_hit = spaceship.shield < shield_before;
    }
    if !dead && spaceship.spaceship_blackhole_collision(blackholes) {
        dead = true;
    }
    (dead, shield_hit)
}

/// Whether an empty field at this round time wins the round.
pub fn round_won(asteroid_count: usize, time: i64, win_time_ms: i64) -> (r: bool)
    requires
        -TIME_LIMIT <= time <= TIME_LIMIT,
        -TIME_LIMIT <= win_time_ms <= TIME_LIMIT,
    ensures
        r == (asteroid_count == 0 && time > win_time_ms),
{
    asteroid_count == 0 && time > win_time_ms
}

} // verus!
