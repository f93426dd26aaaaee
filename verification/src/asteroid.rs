//! Asteroids: representation, random spawning near the edges, splitting into
//! smaller fragments, movement with the toroidal wrap, and the pairwise
//! collision test.

use crate::blackhole::{BlackHole, BLACKHOLE_SIZE};
use crate::geom::{
    bound_pos, bound_pos_spec, check_circles_overlap, circles_overlap, near_unit, scale_div,
    scale_div_spec, vec_bounded, Bounds, Vec2i, COORD_LIMIT, FACTOR_LIMIT, POSITION_LIMIT, SCALE,
    SPEED_LIMIT, TIME_LIMIT,
};
use crate::rng::{rand_bool, rand_i64_range, random_unit_dir};
use crate::seqs::{count_flagged, lemma_count_flagged_le, lemma_push_drop_first, remove_desc, swap_remove_seq};
use crate::stellarobject::StellarObject;
use vstd::prelude::*;

verus! {

/// Size of the smallest randomly spawned asteroid.
pub const ASTEROID_SMALL_MIN_SIZE: i64 = 10_000;

/// Size of the smallest split fragment.
pub const ASTEROID_SPLIT_MIN_SIZE: i64 = 20_000;

/// Upper size of a small asteroid.
pub const ASTEROID_SMALL_SIZE: i64 = 30_000;

/// Upper size of a medium asteroid.
pub const ASTEROID_MEDIUM_SIZE: i64 = 50_000;

/// Upper size of a large asteroid.
pub const ASTEROID_LARGE_SIZE: i64 = 70_000;

/// Magnitude of the rotation step applied per simulation tick.
pub const ROTATION_STEP: i64 = 10;

/// The three asteroid sizes.
#[derive(Debug, PartialEq, Eq, Structural, Clone, Copy)]
pub enum AsteroidShape {
    Small,
    Medium,
    Large,
}

/// An asteroid drifting through the play area.
#[derive(Debug, PartialEq, Eq, Structural, Clone, Copy)]
pub struct Asteroid {
    /// Centre of the asteroid.
    pub position: Vec2i,
    /// Displacement per simulation tick (before the speed factor).
    pub speed: Vec2i,
    /// Size class.
    pub shape: AsteroidShape,
    /// Collision radius.
    pub size: i64,
    /// Rotation angle, in milliradians; its sign is the spin direction.
    pub rotation: i64,
    /// Simulation clock value at creation, in milliseconds.
    pub birth_time: i64,
}

/// The size of an asteroid lies in the band of its shape.
pub open spec fn size_in_range(shape: AsteroidShape, size: int) -> bool {
    match shape {
        AsteroidShape::Small => ASTEROID_SMALL_MIN_SIZE <= size <= ASTEROID_SMALL_SIZE,
        AsteroidShape::Medium => ASTEROID_SMALL_SIZE <= size <= ASTEROID_MEDIUM_SIZE,
        AsteroidShape::Large => ASTEROID_MEDIUM_SIZE <= size <= ASTEROID_LARGE_SIZE,
    }
}

/// The position and size are small enough for the exact collision test.
pub open spec fn asteroid_geom_ok(a: Asteroid) -> bool {
    vec_bounded(a.position) && 0 <= a.size <= COORD_LIMIT / 2
}

/// `p` lies against one of the four edges of the play area: the coordinate
/// toward that edge stays within half the asteroid's size to its full size
/// of the edge.
pub open spec fn near_edge(p: Vec2i, size: int, bounds: Bounds) -> bool {
    ||| size / 2 <= p.y <= size
    ||| bounds.width - size <= p.x <= bounds.width - size / 2
    ||| bounds.height - size <= p.y <= bounds.height - size / 2
    ||| size / 2 <= p.x <= size
}

/// Everything `new_random` promises of a freshly spawned asteroid.
pub open spec fn valid_spawn(a: Asteroid, now: int, bounds: Bounds) -> bool {
    &&& size_in_range(a.shape, a.size as int)
    &&& 0 <= a.position.x <= bounds.width
    &&& 0 <= a.position.y <= bounds.height
    &&& near_edge(a.position, a.size as int, bounds)
    &&& near_unit(a.speed)
    &&& (a.rotation == ROTATION_STEP || a.rotation == -ROTATION_STEP)
    &&& a.birth_time == now
}

/// How many fragments splitting an asteroid of this shape produces.
pub open spec fn split_count(shape: AsteroidShape) -> int {
    match shape {
        AsteroidShape::Small => 0,
        AsteroidShape::Medium => 2,
        AsteroidShape::Large => 2,
    }
}

/// One fragment of a split: the parent's position, a fresh random heading,
/// the next smaller shape, and a size drawn from the fragment band.
pub open spec fn valid_fragment(parent: Asteroid, f: Asteroid, now: int) -> bool {
    &&& f.position == parent.position
    &&& f.birth_time == now
    &&& (f.rotation == ROTATION_STEP || f.rotation == -ROTATION_STEP)
    &&& near_unit(f.speed)
    &&& match parent.shape {
        AsteroidShape::Large => f.shape == AsteroidShape::Medium && ASTEROID_SMALL_SIZE <= f.size
            <= ASTEROID_MEDIUM_SIZE,
        AsteroidShape::Medium => f.shape == AsteroidShape::Small && ASTEROID_SPLIT_MIN_SIZE
            <= f.size <= ASTEROID_SMALL_SIZE,
        AsteroidShape::Small => false,
    }
}

/// What `split` promises: the exact fragment count for the parent's shape,
/// every entry a valid fragment.
pub open spec fn valid_split(parent: Asteroid, frags: Seq<Asteroid>, now: int) -> bool {
    &&& frags.len() == split_count(parent.shape)
    &&& forall|i: int| 0 <= i < frags.len() ==> valid_fragment(parent, #[trigger] frags[i], now)
}

/// The position reached after one movement step: the speed scaled by the
/// factor is added, then both coordinates wrap.
pub open spec fn advance_pos_spec(pos: Vec2i, speed: Vec2i, factor: int, bounds: Bounds) -> Vec2i {
    bound_pos_spec(
        Vec2i {
            x: (pos.x + scale_div_spec(speed.x * factor)) as i64,
            y: (pos.y + scale_div_spec(speed.y * factor)) as i64,
        },
        bounds.width as int,
        bounds.height as int,
    )
}

/// The rotation after one movement step: the magnitude of the spin grows by
/// one step in its current direction.
pub open spec fn rotation_step_spec(rotation: int, apply: bool) -> int {
    if !apply {
        rotation
    } else if rotation > 0 {
        rotation + ROTATION_STEP
    } else {
        rotation - ROTATION_STEP
    }
}

impl StellarObject for Asteroid {
    open spec fn obj_position(&self) -> Vec2i {
        self.position
    }

    open spec fn obj_speed(&self) -> Vec2i {
        self.speed
    }

    open spec fn obj_size(&self) -> i64 {
        self.size
    }

    fn get_position(&self) -> Vec2i {
        self.position
    }

    fn get_speed(&self) -> Vec2i {
        self.speed
    }

    fn get_size(&self) -> i64 {
        self.size
    }

    fn set_position(&mut self, position: Vec2i) {
        self.position = position;
    }
}

impl Asteroid {
    /// A new asteroid with the given attributes, born at `now`; the spin
    /// direction is drawn by a fair coin flip.
    pub fn new(position: Vec2i, speed: Vec2i, shape: AsteroidShape, size: i64, now: i64) -> (a:
        Asteroid)
        ensures
            a.position == position,
            a.speed == speed,
            a.shape == shape,
            a.size == size,
            a.birth_time == now,
            a.rotation == ROTATION_STEP || a.rotation == -ROTATION_STEP,
    {
        let rotation: i64 = if rand_bool() {
            ROTATION_STEP
        } else {
            -ROTATION_STEP
        };
        Asteroid { position, speed, shape, size, rotation, birth_time: now }
    }

    /// A random asteroid born at `now`: shape drawn uniformly, size uniform
    /// within the shape's band, position near one of the four edges, heading
    /// a random near-unit direction.
    pub fn new_random(now: i64, bounds: Bounds) -> (a: Asteroid)
        requires
            bounds.wf(),
            bounds.width >= ASTEROID_LARGE_SIZE,
            bounds.height >= ASTEROID_LARGE_SIZE,
        ensures
            valid_spawn(a, now as int, bounds),
    {
        let pick = rand_i64_range(0, 2);
        let shape = if pick == 0 {
            AsteroidShape::Small
        } else if pick == 1 {
            AsteroidShape::Medium
        } else {
            AsteroidShape::Large
        };
        let size = match shape {
            AsteroidShape::Large => rand_i64_range(ASTEROID_MEDIUM_SIZE, ASTEROID_LARGE_SIZE),
            AsteroidShape::Medium => rand_i64_range(ASTEROID_SMALL_SIZE, ASTEROID_MEDIUM_SIZE),
            AsteroidShape::Small => rand_i64_range(ASTEROID_SMALL_MIN_SIZE, ASTEROID_SMALL_SIZE),
        };
        let position = Self::new_random_alea_pos(size, bounds);
        let speed = random_unit_dir();
        Self::new(position, speed, shape, size, now)
    }

    /// A random position near one of the four edges: an edge is drawn, the
    /// coordinate toward it lies within half the size to the full size of
    /// the asteroid, and the other coordinate is uniform across the span.
    fn new_random_alea_pos(size: i64, bounds: Bounds) -> (p: Vec2i)
        requires
            bounds.wf(),
            0 < size <= ASTEROID_LARGE_SIZE,
            bounds.width >= size,
            bounds.height >= size,
        ensures
            0 <= p.x <= bounds.width,
            0 <= p.y <= bounds.height,
            near_edge(p, size as int, bounds),
    {
        let nearpos = rand_i64_range(((size as u64) / 2) as i64, size);
        let nearside = rand_i64_range(1, 4);
        let xpos = if nearside == 2 {
            bounds.width - nearpos
        } else if nearside == 4 {
            nearpos
        } else {
            rand_i64_range(0, bounds.width)
        };
        let ypos = if nearside == 1 {
            nearpos
        } else if nearside == 3 {
            bounds.height - nearpos
        } else {
            rand_i64_range(0, bounds.height)
        };
        Vec2i { x: xpos, y: ypos }
    }

    /// The asteroid's size class.
    pub fn get_shape(&self) -> (s: AsteroidShape)
        ensures
            s == self.shape,
    {
        self.shape
    }

    /// The simulation clock value at which the asteroid was created.
    pub fn get_birth_time(&self) -> (t: i64)
        ensures
            t == self.birth_time,
    {
        self.birth_time
    }

    /// The asteroid's rotation angle, in milliradians.
    pub fn get_rotation(&self) -> (r: i64)
        ensures
            r == self.rotation,
    {
        self.rotation
    }

    /// Overwrites the rotation angle.
    pub fn set_rotation(&mut self, rotation: i64)
        ensures
            *final(self) == (Asteroid { rotation, ..*old(self) }),
    {
        self.rotation = rotation;
    }

    /// Splits the asteroid: a large one yields two medium fragments, a
    /// medium one two small fragments, a small one nothing. Fragments keep
    /// the parent's position and draw fresh random headings and sizes.
    pub fn split(&self, now: i64) -> (frags: Vec<Asteroid>)
        ensures
            valid_split(*self, frags@, now as int),
    {
        match self.shape {
            AsteroidShape::Large => {
                let mut frags: Vec<Asteroid> = Vec::new();
                let s1 = rand_i64_range(ASTEROID_SMALL_SIZE, ASTEROID_MEDIUM_SIZE);
                frags.push(
                    Self::new(self.position, random_unit_dir(), AsteroidShape::Medium, s1, now),
                );
                let s2 = rand_i64_range(ASTEROID_SMALL_SIZE, ASTEROID_MEDIUM_SIZE);
                frags.push(
                    Self::new(self.position, random_unit_dir(), AsteroidShape::Medium, s2, now),
                );
                frags
            },
            AsteroidShape::Medium => {
                let mut frags: Vec<Asteroid> = Vec::new();
                let s1 = rand_i64_range(ASTEROID_SPLIT_MIN_SIZE, ASTEROID_SMALL_SIZE);
                frags.push(
                    Self::new(self.position, random_unit_dir(), AsteroidShape::Small, s1, now),
                );
                let s2 = rand_i64_range(ASTEROID_SPLIT_MIN_SIZE, ASTEROID_SMALL_SIZE);
                frags.push(
                    Self::new(self.position, random_unit_dir(), AsteroidShape::Small, s2, now),
                );
                frags
            },
            AsteroidShape::Small => Vec::new(),
        }
    }

    /// Appends one freshly spawned asteroid iff more than `range_ms` has
    /// passed since the last spawn, recording the spawn time. Returns
    /// whether a spawn occurred.
    pub fn push_or_dont(
        asteroids: &mut Vec<Asteroid>,
        last_add: &mut i64,
        time: i64,
        range_ms: i64,
        bounds: Bounds,
    ) -> (added: bool)
        requires
            bounds.wf(),
            bounds.width >= ASTEROID_LARGE_SIZE,
            bounds.height >= ASTEROID_LARGE_SIZE,
            -TIME_LIMIT <= time <= TIME_LIMIT,
            -TIME_LIMIT <= *old(last_add) <= TIME_LIMIT,
            0 <= range_ms <= TIME_LIMIT,
        ensures
            added == (time - range_ms > *old(last_add)),
            added ==> final(asteroids)@.len() == old(asteroids)@.len() + 1 && final(asteroids)@
                == old(asteroids)@.push(final(asteroids)@.last()) && valid_spawn(
                final(asteroids)@.last(),
                time as int,
                bounds,
            ) && *final(last_add) == time,
            !added ==> final(asteroids)@ == old(asteroids)@ && *final(last_add) == *old(last_add),
    {
        if time - range_ms > *last_add {
            asteroids.push(Self::new_random(time, bounds));
            *last_add = time;
            proof {
                assert(asteroids@ =~= old(asteroids)@.push(asteroids@.last()));
            }
            true
        } else {
            false
        }
    }

    /// The circle-overlap test against another asteroid: the centres are
    /// strictly closer than the sum of the sizes.
    pub fn is_collide_round(&self, other: &Asteroid) -> (r: bool)
        requires
            asteroid_geom_ok(*self),
            asteroid_geom_ok(*other),
        ensures
            r == circles_overlap(self.position, self.size, other.position, other.size),
    {
        check_circles_overlap(self.position, self.size, other.position, other.size)
    }

    /// One movement step: the speed scaled by `factor` is added to the
    /// position, which then wraps; with `rotation` set the spin accelerates
    /// by one step in its current direction.
    pub fn move_asteroid(&mut self, rotation: bool, factor: i64, bounds: Bounds) -> (p: Vec2i)
        requires
            bounds.wf(),
            bounds.width <= POSITION_LIMIT,
            bounds.height <= POSITION_LIMIT,
            0 <= factor <= FACTOR_LIMIT,
            -POSITION_LIMIT <= old(self).position.x <= POSITION_LIMIT,
            -POSITION_LIMIT <= old(self).position.y <= POSITION_LIMIT,
            -SPEED_LIMIT <= old(self).speed.x <= SPEED_LIMIT,
            -SPEED_LIMIT <= old(self).speed.y <= SPEED_LIMIT,
            -COORD_LIMIT < old(self).rotation < COORD_LIMIT,
        ensures
            final(self).position == advance_pos_spec(
                old(self).position,
                old(self).speed,
                factor as int,
                bounds,
            ),
            final(self).rotation == rotation_step_spec(old(self).rotation as int, rotation),
            final(self).speed == old(self).speed,
            final(self).shape == old(self).shape,
            final(self).size == old(self).size,
            final(self).birth_time == old(self).birth_time,
            !rotation ==> p == final(self).position,
            rotation ==> p == (Vec2i {
                x: scale_div_spec(final(self).position.x * factor) as i64,
                y: scale_div_spec(final(self).position.y * factor) as i64,
            }),
    {
        proof {
            assert(-SPEED_LIMIT * FACTOR_LIMIT <= self.speed.x * factor <= SPEED_LIMIT
                * FACTOR_LIMIT && -SPEED_LIMIT * FACTOR_LIMIT <= self.speed.y * factor
                <= SPEED_LIMIT * FACTOR_LIMIT) by (nonlinear_arith)
                requires
                    -SPEED_LIMIT <= self.speed.x <= SPEED_LIMIT,
                    -SPEED_LIMIT <= self.speed.y <= SPEED_LIMIT,
                    0 <= factor <= FACTOR_LIMIT;
        }
        let step = Vec2i {
            x: self.position.x + scale_div(self.speed.x * factor),
            y: self.position.y + scale_div(self.speed.y * factor),
        };
        let wrapped = bound_pos(step, bounds);
        self.position = wrapped;
        if !rotation {
            return self.position;
        }
        if self.rotation > 0 {
            let r = self.rotation + ROTATION_STEP;
            self.set_rotation(r);
        } else {
            let r = self.rotation - ROTATION_STEP;
            self.set_rotation(r);
        }
        proof {
            let w = self.position;
            let lim = 2 * POSITION_LIMIT + SPEED_LIMIT * FACTOR_LIMIT;
            assert(0 <= w.x <= lim && 0 <= w.y <= lim);
            assert(0 <= w.x * factor <= lim * FACTOR_LIMIT && 0 <= w.y * factor <= lim
                * FACTOR_LIMIT) by (nonlinear_arith)
                requires
                    0 <= w.x <= lim,
                    0 <= w.y <= lim,
                    0 <= factor <= FACTOR_LIMIT,
                    lim == 2 * POSITION_LIMIT + SPEED_LIMIT * FACTOR_LIMIT;
        }
        Vec2i { x: scale_div(self.position.x * factor), y: scale_div(self.position.y * factor) }
    }
}

/// How an eligible colliding pair is resolved: by a random draw (one chance
/// in `FUSION_DIE_MAX + 1` of fusing into a black hole), or forced either
/// way for a controlled run.
#[derive(Debug, PartialEq, Eq, Structural, Clone, Copy)]
pub enum FusionPolicy {
    Random,
    Always,
    Never,
}

/// Age (in milliseconds) both asteroids of a pair must exceed before the
/// pair can resolve; guards fresh fragments against instant re-collision.
pub const ASTEROID_MATURE_AGE_MS: i64 = 1000;

/// The fusion draw picks from `0..=FUSION_DIE_MAX` and fuses on zero.
pub const FUSION_DIE_MAX: i64 = 14;

/// A pair is eligible to resolve: the circles overlap and both asteroids
/// have existed for more than the maturity age.
pub open spec fn eligible_pair(a: Asteroid, b: Asteroid, now: int) -> bool {
    &&& circles_overlap(a.position, a.size, b.position, b.size)
    &&& now - a.birth_time > ASTEROID_MATURE_AGE_MS
    &&& now - b.birth_time > ASTEROID_MATURE_AGE_MS
}

/// The first index `>= j` that forms an eligible pair with index `i`, or
/// the length if none does.
pub open spec fn match_from(s: Seq<Asteroid>, now: int, i: int, j: int) -> int
    decreases s.len() - j,
{
    if j < 0 || j >= s.len() {
        s.len() as int
    } else if eligible_pair(s[i], s[j], now) {
        j
    } else {
        match_from(s, now, i, j + 1)
    }
}

/// The partner the scan assigns to index `i`: the first eligible index
/// after `i`, or the length if none.
pub open spec fn match_of(s: Seq<Asteroid>, now: int, i: int) -> int {
    match_from(s, now, i, i + 1)
}

/// Whether the scan finds a partner for index `i`.
pub open spec fn has_match(s: Seq<Asteroid>, now: int, i: int) -> bool {
    match_of(s, now, i) < s.len()
}

/// Whether index `k` takes part in some resolved pair, as the scanning side
/// or as a partner.
pub open spec fn involved(s: Seq<Asteroid>, now: int, k: int) -> bool {
    has_match(s, now, k) || exists|i2: int| 0 <= i2 < k && #[trigger] match_of(s, now, i2) == k
}

/// The resolved pairs from index `i` on, in scan order.
pub open spec fn pairs_from(s: Seq<Asteroid>, now: int, i: int) -> Seq<(int, int)>
    decreases s.len() - i,
{
    if i < 0 || i >= s.len() {
        Seq::empty()
    } else if has_match(s, now, i) {
        seq![(i, match_of(s, now, i))] + pairs_from(s, now, i + 1)
    } else {
        pairs_from(s, now, i + 1)
    }
}

/// All resolved pairs of one pass, in scan order.
pub open spec fn pairs(s: Seq<Asteroid>, now: int) -> Seq<(int, int)> {
    pairs_from(s, now, 0)
}

/// The black hole a fused pair leaves behind: at the first asteroid's
/// position.
pub open spec fn hole_of(s: Seq<Asteroid>, pair: (int, int)) -> BlackHole {
    BlackHole { position: s[pair.0].position, size: BLACKHOLE_SIZE, rotation: 0 }
}

/// The black holes a pass appends: one for each pair whose roll came up
/// fusion, in pair order.
pub open spec fn fused_holes(s: Seq<Asteroid>, pr: Seq<(int, int)>, rolls: Seq<bool>) -> Seq<
    BlackHole,
>
    decreases pr.len(),
{
    if pr.len() == 0 || rolls.len() == 0 {
        Seq::empty()
    } else if rolls[0] {
        seq![hole_of(s, pr[0])] + fused_holes(s, pr.drop_first(), rolls.drop_first())
    } else {
        fused_holes(s, pr.drop_first(), rolls.drop_first())
    }
}

/// `frags` is exactly the fragments of the pairs whose roll came up split:
/// for each such pair, in order, a valid split of each member.
pub open spec fn frags_ok(
    s: Seq<Asteroid>,
    pr: Seq<(int, int)>,
    rolls: Seq<bool>,
    frags: Seq<Asteroid>,
    now: int,
) -> bool
    decreases pr.len(),
{
    if pr.len() == 0 || rolls.len() == 0 {
        frags.len() == 0
    } else if rolls[0] {
        frags_ok(s, pr.drop_first(), rolls.drop_first(), frags, now)
    } else {
        let la = split_count(s[pr[0].0].shape);
        let lb = split_count(s[pr[0].1].shape);
        &&& frags.len() >= la + lb
        &&& valid_split(s[pr[0].0], frags.take(la), now)
        &&& valid_split(s[pr[0].1], frags.subrange(la, la + lb), now)
        &&& frags_ok(s, pr.drop_first(), rolls.drop_first(), frags.skip(la + lb), now)
    }
}

/// The involved indices from `k` down to zero, descending: the removal
/// order of the pass.
pub open spec fn desc_removals_from(s: Seq<Asteroid>, now: int, k: int) -> Seq<int>
    decreases k + 1,
{
    if k < 0 {
        Seq::empty()
    } else if involved(s, now, k) {
        seq![k] + desc_removals_from(s, now, k - 1)
    } else {
        desc_removals_from(s, now, k - 1)
    }
}

/// All removal indices of one pass, descending.
pub open spec fn desc_removals(s: Seq<Asteroid>, now: int) -> Seq<int> {
    desc_removals_from(s, now, s.len() - 1)
}

/// Everything one resolution pass promises: for some sequence of fusion
/// rolls (pinned by a forcing policy) and some valid fragment sequence, the
/// black holes grow by the fused pairs' holes, and the asteroids are the
/// old ones minus every involved index (removed by descending swap-removal)
/// plus the fragments.
pub open spec fn asteroid_pass_post(
    s0: Seq<Asteroid>,
    b0: Seq<BlackHole>,
    s1: Seq<Asteroid>,
    b1: Seq<BlackHole>,
    now: int,
    policy: FusionPolicy,
) -> bool {
    exists|rolls: Seq<bool>, frags: Seq<Asteroid>|
        #![trigger rolls.len(), frags.len()]
        {
            &&& rolls.len() == pairs(s0, now).len()
            &&& (policy == FusionPolicy::Always ==> forall|t: int|
                0 <= t < rolls.len() ==> rolls[t])
            &&& (policy == FusionPolicy::Never ==> forall|t: int|
                0 <= t < rolls.len() ==> !rolls[t])
            &&& b1 == b0 + fused_holes(s0, pairs(s0, now), rolls)
            &&& frags_ok(s0, pairs(s0, now), rolls, frags, now)
            &&& s1 == remove_desc(s0, desc_removals(s0, now)) + frags
        }
}

/// `a` came out of a resolution pass over `s0`: it is one of the originals,
/// or a fragment of one.
pub open spec fn asteroid_from_pass(s0: Seq<Asteroid>, a: Asteroid, now: int) -> bool {
    ||| exists|k0: int| 0 <= k0 < s0.len() && #[trigger] s0[k0] == a
    ||| exists|k0: int| 0 <= k0 < s0.len() && valid_fragment(#[trigger] s0[k0], a, now)
}

/// `b` is a hole a pass over `s0` can leave: fresh, at an original's
/// position.
pub open spec fn blackhole_from_pass(s0: Seq<Asteroid>, b: BlackHole) -> bool {
    exists|k0: int|
        0 <= k0 < s0.len() && b == (BlackHole {
            position: (#[trigger] s0[k0]).position,
            size: BLACKHOLE_SIZE,
            rotation: 0,
        })
}

/// A scan match always lies at or after where the scan started.
proof fn lemma_match_from_ge(s: Seq<Asteroid>, now: int, i: int, j: int)
    requires
        0 <= j <= s.len(),
    ensures
        j <= match_from(s, now, i, j) <= s.len(),
    decreases s.len() - j,
{
    if j < s.len() && !eligible_pair(s[i], s[j], now) {
        lemma_match_from_ge(s, now, i, j + 1);
    }
}

/// Appending a pair extends the fused holes by that pair's hole when its
/// roll fuses, and not otherwise.
proof fn lemma_fused_holes_push(
    s: Seq<Asteroid>,
    pr: Seq<(int, int)>,
    rolls: Seq<bool>,
    pair: (int, int),
    r: bool,
)
    requires
        rolls.len() == pr.len(),
    ensures
        fused_holes(s, pr.push(pair), rolls.push(r)) == fused_holes(s, pr, rolls) + (if r {
            seq![hole_of(s, pair)]
        } else {
            Seq::<BlackHole>::empty()
        }),
    decreases pr.len(),
{
    let lhs = fused_holes(s, pr.push(pair), rolls.push(r));
    let add = if r {
        seq![hole_of(s, pair)]
    } else {
        Seq::<BlackHole>::empty()
    };
    if pr.len() == 0 {
        let pr1 = pr.push(pair);
        let rolls1 = rolls.push(r);
        assert(pr1.len() == 1 && rolls1.len() == 1);
        assert(pr1[0] == pair && rolls1[0] == r);
        assert(pr1.drop_first() =~= Seq::<(int, int)>::empty());
        assert(rolls1.drop_first() =~= Seq::<bool>::empty());
        assert(fused_holes(s, pr1.drop_first(), rolls1.drop_first()) == Seq::<
            BlackHole,
        >::empty());
        assert(fused_holes(s, pr, rolls) == Seq::<BlackHole>::empty());
        if r {
            assert(lhs == seq![hole_of(s, pair)] + Seq::<BlackHole>::empty());
            assert(lhs =~= fused_holes(s, pr, rolls) + add);
        } else {
            assert(lhs == Seq::<BlackHole>::empty());
            assert(lhs =~= fused_holes(s, pr, rolls) + add);
        }
    } else {
        lemma_push_drop_first(pr, pair);
        lemma_push_drop_first(rolls, r);
        lemma_fused_holes_push(s, pr.drop_first(), rolls.drop_first(), pair, r);
        if rolls[0] {
            assert(lhs == seq![hole_of(s, pr[0])] + (fused_holes(
                s,
                pr.drop_first(),
                rolls.drop_first(),
            ) + add));
            assert(seq![hole_of(s, pr[0])] + (fused_holes(s, pr.drop_first(), rolls.drop_first())
                + add) =~= (seq![hole_of(s, pr[0])] + fused_holes(
                s,
                pr.drop_first(),
                rolls.drop_first(),
            )) + add);
        }
    }
}

/// Appending a pair whose roll fuses leaves the fragment account unchanged.
proof fn lemma_frags_ok_push_fuse(
    s: Seq<Asteroid>,
    pr: Seq<(int, int)>,
    rolls: Seq<bool>,
    frags: Seq<Asteroid>,
    pair: (int, int),
    now: int,
)
    requires
        rolls.len() == pr.len(),
        frags_ok(s, pr, rolls, frags, now),
    ensures
        frags_ok(s, pr.push(pair), rolls.push(true), frags, now),
    decreases pr.len(),
{
    let pr1 = pr.push(pair);
    let rolls1 = rolls.push(true);
    if pr.len() == 0 {
        assert(pr1[0] == pair && rolls1[0] == true);
        assert(frags.len() == 0);
        assert(pr1.drop_first() =~= Seq::<(int, int)>::empty());
        assert(rolls1.drop_first() =~= Seq::<bool>::empty());
        assert(frags_ok(s, Seq::<(int, int)>::empty(), Seq::<bool>::empty(), frags, now));
        assert(frags_ok(s, pr1, rolls1, frags, now));
    } else {
        assert(pr1[0] == pr[0] && rolls1[0] == rolls[0]);
        lemma_push_drop_first(pr, pair);
        lemma_push_drop_first(rolls, true);
        if rolls[0] {
            lemma_frags_ok_push_fuse(s, pr.drop_first(), rolls.drop_first(), frags, pair, now);
            assert(frags_ok(s, pr1, rolls1, frags, now));
        } else {
            let la = split_count(s[pr[0].0].shape);
            let lb = split_count(s[pr[0].1].shape);
            lemma_frags_ok_push_fuse(
                s,
                pr.drop_first(),
                rolls.drop_first(),
                frags.skip(la + lb),
                pair,
                now,
            );
            assert(frags_ok(s, pr1, rolls1, frags, now));
        }
    }
}

/// Appending a pair whose roll splits extends the fragment account by a
/// valid split of each member, in order.
proof fn lemma_frags_ok_push_split(
    s: Seq<Asteroid>,
    pr: Seq<(int, int)>,
    rolls: Seq<bool>,
    frags: Seq<Asteroid>,
    pair: (int, int),
    fa: Seq<Asteroid>,
    fb: Seq<Asteroid>,
    now: int,
)
    requires
        rolls.len() == pr.len(),
        frags_ok(s, pr, rolls, frags, now),
        valid_split(s[pair.0], fa, now),
        valid_split(s[pair.1], fb, now),
    ensures
        frags_ok(s, pr.push(pair), rolls.push(false), frags + fa + fb, now),
    decreases pr.len(),
{
    let whole = frags + fa + fb;
    let pr1 = pr.push(pair);
    let rolls1 = rolls.push(false);
    if pr.len() == 0 {
        assert(pr1[0] == pair && rolls1[0] == false);
        assert(pr1.drop_first() =~= Seq::<(int, int)>::empty());
        assert(rolls1.drop_first() =~= Seq::<bool>::empty());
        let la = split_count(s[pair.0].shape);
        let lb = split_count(s[pair.1].shape);
        assert(frags.len() == 0);
        assert(fa.len() == la && fb.len() == lb);
        assert(whole.take(la) =~= fa);
        assert(whole.subrange(la, la + lb) =~= fb);
        assert(whole.skip(la + lb) =~= Seq::<Asteroid>::empty());
        assert(frags_ok(
            s,
            Seq::<(int, int)>::empty(),
            Seq::<bool>::empty(),
            whole.skip(la + lb),
            now,
        ));
        assert(frags_ok(s, pr1, rolls1, whole, now));
    } else {
        assert(pr1[0] == pr[0] && rolls1[0] == rolls[0]);
        lemma_push_drop_first(pr, pair);
        lemma_push_drop_first(rolls, false);
        if rolls[0] {
            lemma_frags_ok_push_split(
                s,
                pr.drop_first(),
                rolls.drop_first(),
                frags,
                pair,
                fa,
                fb,
                now,
            );
            assert(frags_ok(s, pr1, rolls1, whole, now));
        } else {
            let la = split_count(s[pr[0].0].shape);
            let lb = split_count(s[pr[0].1].shape);
            lemma_frags_ok_push_split(
                s,
                pr.drop_first(),
                rolls.drop_first(),
                frags.skip(la + lb),
                pair,
                fa,
                fb,
                now,
            );
            assert(whole.take(la) =~= frags.take(la));
            assert(whole.subrange(la, la + lb) =~= frags.subrange(la, la + lb));
            assert(whole.skip(la + lb) =~= frags.skip(la + lb) + fa + fb);
            assert(frags_ok(s, pr1, rolls1, whole, now));
        }
    }
}

impl Asteroid {
    /// One pairwise resolution pass: each index is matched with the first
    /// later index it eligibly collides with; each matched pair either
    /// fuses into one black hole at the first member's position (a rare
    /// random event, or as the policy forces) or splits both members into
    /// fragments. All involved asteroids are then removed by descending
    /// swap-removal and the fragments are appended.
    pub fn what_collide_asteroids(
        asteroids: &mut Vec<Asteroid>,
        blackholes: &mut Vec<BlackHole>,
        now: i64,
        policy: FusionPolicy,
    )
        requires
            forall|k: int|
                0 <= k < old(asteroids)@.len() ==> asteroid_geom_ok(
                    #[trigger] old(asteroids)@[k],
                ),
            forall|k: int|
                0 <= k < old(asteroids)@.len() ==> -TIME_LIMIT <= (#[trigger] old(
                    asteroids,
                )@[k]).birth_time <= TIME_LIMIT,
            -TIME_LIMIT <= now <= TIME_LIMIT,
        ensures
            asteroid_pass_post(
                old(asteroids)@,
                old(blackholes)@,
                final(asteroids)@,
                final(blackholes)@,
                now as int,
                policy,
            ),
            forall|k: int|
                0 <= k < final(asteroids)@.len() ==> asteroid_from_pass(
                    old(asteroids)@,
                    #[trigger] final(asteroids)@[k],
                    now as int,
                ),
            forall|k: int|
                old(blackholes)@.len() <= k < final(blackholes)@.len() ==> blackhole_from_pass(
                    old(asteroids)@,
                    #[trigger] final(blackholes)@[k],
                ),
    {
        let ghost s0 = asteroids@;
        let ghost nowi = now as int;
        let ghost all_pairs = pairs(s0, nowi);
        let n = asteroids.len();
        let mut flags: Vec<bool> = Vec::new();
        let mut t: usize = 0;
        while t < n
            invariant
                t <= n,
                flags@.len() == t,
                forall|k: int| 0 <= k < t ==> !(#[trigger] flags@[k]),
            decreases n - t,
        {
            flags.push(false);
            t = t + 1;
        }
        let mut news: Vec<Asteroid> = Vec::new();
        let ghost mut rolls: Seq<bool> = Seq::empty();
        let ghost mut p: int = 0;
        let mut i: usize = 0;
        while i < n
            invariant
                i <= n,
                n == s0.len(),
                asteroids@ == s0,
                -TIME_LIMIT <= now <= TIME_LIMIT,
                nowi == now as int,
                all_pairs == pairs(s0, nowi),
                forall|k: int| 0 <= k < n ==> asteroid_geom_ok(#[trigger] s0[k]),
                forall|k: int|
                    0 <= k < n ==> -TIME_LIMIT <= (#[trigger] s0[k]).birth_time <= TIME_LIMIT,
                flags@.len() == n,
                0 <= p <= all_pairs.len(),
                rolls.len() == p,
                all_pairs == all_pairs.take(p) + pairs_from(s0, nowi, i as int),
                policy == FusionPolicy::Always ==> forall|u: int| 0 <= u < p ==> rolls[u],
                policy == FusionPolicy::Never ==> forall|u: int| 0 <= u < p ==> !rolls[u],
                blackholes@ == old(blackholes)@ + fused_holes(s0, all_pairs.take(p), rolls),
                frags_ok(s0, all_pairs.take(p), rolls, news@, nowi),
                forall|k: int|
                    old(blackholes)@.len() <= k < blackholes@.len() ==> blackhole_from_pass(
                        s0,
                        #[trigger] blackholes@[k],
                    ),
                forall|k: int|
                    0 <= k < news@.len() ==> asteroid_from_pass(s0, #[trigger] news@[k], nowi),
                forall|k: int|
                    0 <= k < n ==> (#[trigger] flags@[k] == ((k < i && has_match(s0, nowi, k))
                        || exists|i2: int|
                        0 <= i2 < i && #[trigger] match_of(s0, nowi, i2) == k)),
            decreases n - i,
        {
            let mut j: usize = i + 1;
            while j < n && !(asteroids[i].is_collide_round(&asteroids[j]) && now
                - asteroids[i].get_birth_time() > ASTEROID_MATURE_AGE_MS && now
                - asteroids[j].get_birth_time() > ASTEROID_MATURE_AGE_MS)
                invariant
                    i < n,
                    i + 1 <= j <= n,
                    n == s0.len(),
                    asteroids@ == s0,
                    -TIME_LIMIT <= now <= TIME_LIMIT,
                    nowi == now as int,
                    forall|k: int| 0 <= k < n ==> asteroid_geom_ok(#[trigger] s0[k]),
                    forall|k: int|
                        0 <= k < n ==> -TIME_LIMIT <= (#[trigger] s0[k]).birth_time <= TIME_LIMIT,
                    match_of(s0, nowi, i as int) == match_from(s0, nowi, i as int, j as int),
                decreases n - j,
            {
                j = j + 1;
            }
            if j < n {
                proof {
                    assert(eligible_pair(s0[i as int], s0[j as int], nowi));
                    assert(match_of(s0, nowi, i as int) == j as int);
                    assert(has_match(s0, nowi, i as int));
                    assert(pairs_from(s0, nowi, i as int) == seq![(i as int, j as int)]
                        + pairs_from(s0, nowi, i as int + 1));
                    assert(all_pairs == all_pairs.take(p) + (seq![(i as int, j as int)]
                        + pairs_from(s0, nowi, i as int + 1)));
                    assert(all_pairs.len() >= p + 1);
                    assert(all_pairs[p] == (i as int, j as int));
                    assert(all_pairs.take(p + 1) =~= all_pairs.take(p).push(
                        (i as int, j as int),
                    ));
                    assert(all_pairs == all_pairs.take(p + 1) + pairs_from(
                        s0,
                        nowi,
                        i as int + 1,
                    )) by {
                        assert(all_pairs =~= all_pairs.take(p + 1) + pairs_from(
                            s0,
                            nowi,
                            i as int + 1,
                        ));
                    }
                }
                let roll = match policy {
                    FusionPolicy::Always => true,
                    FusionPolicy::Never => false,
                    FusionPolicy::Random => rand_i64_range(0, FUSION_DIE_MAX) == 0,
                };
                flags.set(i, true);
                flags.set(j, true);
                proof {
                    lemma_fused_holes_push(s0, all_pairs.take(p), rolls, (i as int, j as int), roll);
                }
                if roll {
                    blackholes.push(BlackHole::new(asteroids[i].get_position()));
                    proof {
                        lemma_frags_ok_push_fuse(
                            s0,
                            all_pairs.take(p),
                            rolls,
                            news@,
                            (i as int, j as int),
                            nowi,
                        );
                        assert(blackholes@ =~= old(blackholes)@ + fused_holes(
                            s0,
                            all_pairs.take(p + 1),
                            rolls.push(true),
                        ));
                    }
                } else {
                    let ai = asteroids[i];
                    let mut fa = ai.split(now);
                    let aj = asteroids[j];
                    let mut fb = aj.split(now);
                    proof {
                        assert(forall|k: int|
                            0 <= k < fa@.len() ==> valid_fragment(s0[i as int], #[trigger] fa@[k], nowi));
                        assert(forall|k: int|
                            0 <= k < fb@.len() ==> valid_fragment(s0[j as int], #[trigger] fb@[k], nowi));
                        lemma_frags_ok_push_split(
                            s0,
                            all_pairs.take(p),
                            rolls,
                            news@,
                            (i as int, j as int),
                            fa@,
                            fb@,
                            nowi,
                        );
                        assert(blackholes@ =~= old(blackholes)@ + fused_holes(
                            s0,
                            all_pairs.take(p + 1),
                            rolls.push(false),
                        ));
                    }
                    news.append(&mut fa);
                    news.append(&mut fb);
                }
                proof {
                    rolls = rolls.push(roll);
                    p = p + 1;
                }
            } else {
                proof {
                    lemma_match_from_ge(s0, nowi, i as int, i as int + 1);
                    assert(match_of(s0, nowi, i as int) == s0.len());
                    assert(!has_match(s0, nowi, i as int));
                    assert(pairs_from(s0, nowi, i as int) == pairs_from(s0, nowi, i as int + 1));
                }
            }
            i = i + 1;
        }
        proof {
            assert(pairs_from(s0, nowi, n as int) =~= Seq::<(int, int)>::empty());
            assert(all_pairs =~= all_pairs.take(p));
            assert(p == all_pairs.len());
            assert(all_pairs.take(p) =~= all_pairs);
            assert(forall|k: int| 0 <= k < n ==> (#[trigger] flags@[k] == involved(s0, nowi, k)))
                by {
                assert forall|k: int| 0 <= k < n implies (#[trigger] flags@[k] == involved(
                    s0,
                    nowi,
                    k,
                )) by {
                    lemma_match_from_ge(s0, nowi, k, k + 1);
                    if flags@[k] {
                        if !has_match(s0, nowi, k) {
                            let i2 = choose|i2: int|
                                0 <= i2 < n && #[trigger] match_of(s0, nowi, i2) == k;
                            lemma_match_from_ge(s0, nowi, i2, i2 + 1);
                            assert(i2 < k);
                        }
                    } else {
                        if involved(s0, nowi, k) {
                            if !has_match(s0, nowi, k) {
                                let i2 = choose|i2: int|
                                    0 <= i2 < k && #[trigger] match_of(s0, nowi, i2) == k;
                                assert(0 <= i2 < n && match_of(s0, nowi, i2) == k);
                            }
                        }
                    }
                }
            }
        }
        let ghost frags_final = news@;
        let ghost fl = flags@;
        let mut k: usize = n;
        proof {
            assert(count_flagged(fl, n as int) == 0);
            assert(asteroids@.len() == n - count_flagged(fl, k as int));
            assert(desc_removals(s0, nowi) == desc_removals_from(s0, nowi, n as int - 1));
            assert forall|k2: int| 0 <= k2 < asteroids@.len() implies asteroid_from_pass(
                s0,
                #[trigger] asteroids@[k2],
                nowi,
            ) by {
                assert(s0[k2] == asteroids@[k2]);
            }
        }
        while k > 0
            invariant
                k <= n,
                n == s0.len(),
                fl == flags@,
                fl.len() == n,
                nowi == now as int,
                forall|k2: int| 0 <= k2 < n ==> (#[trigger] fl[k2] == involved(s0, nowi, k2)),
                asteroids@.len() == n - count_flagged(fl, k as int),
                remove_desc(asteroids@, desc_removals_from(s0, nowi, k as int - 1)) == remove_desc(
                    s0,
                    desc_removals_from(s0, nowi, n as int - 1),
                ),
                forall|k2: int|
                    0 <= k2 < asteroids@.len() ==> asteroid_from_pass(
                        s0,
                        #[trigger] asteroids@[k2],
                        nowi,
                    ),
            decreases k,
        {
            k = k - 1;
            proof {
                lemma_count_flagged_le(fl, k as int + 1);
            }
            if flags[k] {
                proof {
                    assert(involved(s0, nowi, k as int));
                    assert(desc_removals_from(s0, nowi, k as int) == seq![k as int]
                        + desc_removals_from(s0, nowi, k as int - 1));
                    assert(asteroids@.len() >= k + 1);
                }
                let ghost before = asteroids@;
                asteroids.swap_remove(k);
                proof {
                    assert(asteroids@ == swap_remove_seq(before, k as int));
                    assert forall|k2: int| 0 <= k2 < asteroids@.len() implies asteroid_from_pass(
                        s0,
                        #[trigger] asteroids@[k2],
                        nowi,
                    ) by {
                        assert(asteroids@[k2] == before[k2] || asteroids@[k2] == before[before.len()
                            - 1]);
                    }
                    assert((seq![k as int] + desc_removals_from(s0, nowi, k as int - 1)).drop_first()
                        =~= desc_removals_from(s0, nowi, k as int - 1));
                    assert((seq![k as int] + desc_removals_from(s0, nowi, k as int - 1))[0] == k as int);
                    assert(remove_desc(before, desc_removals_from(s0, nowi, k as int))
                        == remove_desc(asteroids@, desc_removals_from(s0, nowi, k as int - 1)));
                }
            } else {
                proof {
                    assert(!involved(s0, nowi, k as int));
                    assert(desc_removals_from(s0, nowi, k as int) == desc_removals_from(
                        s0,
                        nowi,
                        k as int - 1,
                    ));
                }
            }
        }
        proof {
            assert(desc_removals_from(s0, nowi, -1) =~= Seq::<int>::empty());
            assert(asteroids@ == remove_desc(s0, desc_removals(s0, nowi)));
        }
        let ghost removed = asteroids@;
        asteroids.append(&mut news);
        proof {
            assert(asteroids@ == remove_desc(s0, desc_removals(s0, nowi)) + frags_final);
            assert forall|k2: int| 0 <= k2 < asteroids@.len() implies asteroid_from_pass(
                s0,
                #[trigger] asteroids@[k2],
                nowi,
            ) by {
                if k2 < removed.len() {
                    assert(asteroids@[k2] == removed[k2]);
                } else {
                    assert(asteroids@[k2] == frags_final[k2 - removed.len()]);
                }
            }
            assert(rolls.len() == pairs(s0, nowi).len());
            assert(frags_final.len() >= 0);
            assert(frags_ok(s0, pairs(s0, nowi), rolls, frags_final, nowi));
            assert(blackholes@ == old(blackholes)@ + fused_holes(s0, pairs(s0, nowi), rolls));
        }
    }
}

} // verus!
