//! Fixed-point plane geometry: vectors, the toroidal coordinate wrap, and the
//! circle-overlap test shared by every entity.

use vstd::prelude::*;

verus! {

use vstd::arithmetic::div_mod::lemma_div_is_ordered;
use vstd::arithmetic::div_mod::lemma_div_by_multiple;
use vstd::arithmetic::div_mod::lemma_fundamental_div_mod;
use vstd::arithmetic::div_mod::lemma_mod_bound;

/// Fixed-point subunits per world unit: coordinates, sizes and speeds hold
/// thousandths of a world unit.
pub const SCALE: i64 = 1000;

/// Largest coordinate magnitude the exec geometry accepts; keeps every
/// intermediate product inside `i128`.
pub const COORD_LIMIT: i64 = 0x1000_0000_0000_0000;

/// Largest position magnitude the movement and collision arithmetic accepts.
pub const POSITION_LIMIT: i64 = 0x3FFF_FFFF;

/// Largest speed magnitude the movement and collision arithmetic accepts.
pub const SPEED_LIMIT: i64 = 1_000_000;

/// Largest speed factor (and missile length) the arithmetic accepts.
pub const FACTOR_LIMIT: i64 = 1_000_000;

/// Largest clock value (in milliseconds) the time arithmetic accepts.
pub const TIME_LIMIT: i64 = 0x2000_0000_0000;

/// A 2-D vector (or point) in fixed-point world coordinates.
#[derive(Clone, Copy, PartialEq, Eq, Structural, Debug)]
pub struct Vec2i {
    pub x: i64,
    pub y: i64,
}

impl Vec2i {
    pub fn new(x: i64, y: i64) -> (v: Vec2i)
        ensures
            v.x == x,
            v.y == y,
    {
        Vec2i { x, y }
    }
}

/// Both coordinates of `v` are small enough for the exec arithmetic.
pub open spec fn vec_bounded(v: Vec2i) -> bool {
    -COORD_LIMIT <= v.x <= COORD_LIMIT && -COORD_LIMIT <= v.y <= COORD_LIMIT
}

/// Squared Euclidean distance between two points, as a mathematical integer.
pub open spec fn dist2(a: Vec2i, b: Vec2i) -> int {
    (a.x - b.x) * (a.x - b.x) + (a.y - b.y) * (a.y - b.y)
}

/// Two circles overlap iff the distance between their centres is strictly
/// below the sum of their radii.
pub open spec fn circles_overlap(p1: Vec2i, r1: i64, p2: Vec2i, r2: i64) -> bool {
    dist2(p1, p2) < (r1 + r2) * (r1 + r2)
}

/// The circle-overlap test does not depend on the order of the two circles.
pub proof fn lemma_circles_overlap_symmetric(p1: Vec2i, r1: i64, p2: Vec2i, r2: i64)
    ensures
        circles_overlap(p1, r1, p2, r2) == circles_overlap(p2, r2, p1, r1),
{
    assert(dist2(p1, p2) == dist2(p2, p1)) by (nonlinear_arith);
    assert((r1 + r2) * (r1 + r2) == (r2 + r1) * (r2 + r1)) by (nonlinear_arith);
}

/// Exec form of `circles_overlap`, computed exactly in `i128`.
pub fn check_circles_overlap(p1: Vec2i, r1: i64, p2: Vec2i, r2: i64) -> (r: bool)
    requires
        vec_bounded(p1),
        vec_bounded(p2),
        -COORD_LIMIT <= r1 + r2 <= COORD_LIMIT,
    ensures
        r == circles_overlap(p1, r1, p2, r2),
{
    let dx = p1.x as i128 - p2.x as i128;
    let dy = p1.y as i128 - p2.y as i128;
    let rr = r1 as i128 + r2 as i128;
    proof {
        let l = 2 * COORD_LIMIT as int;
        assert(0 <= dx * dx <= l * l) by (nonlinear_arith)
            requires
                -l <= dx <= l;
        assert(0 <= dy * dy <= l * l) by (nonlinear_arith)
            requires
                -l <= dy <= l;
        assert(0 <= rr * rr <= l * l) by (nonlinear_arith)
            requires
                -l <= rr <= l;
    }
    dx * dx + dy * dy < rr * rr
}

/// One coordinate after the toroidal wrap. A coordinate above `max` comes
/// back reduced by `max`; a negative one maps to `max - coord` (the
/// documented policy, deliberately not `max + coord`).
pub open spec fn bound_to_spec(coord: int, max: int) -> int {
    if coord < 0 {
        max - coord
    } else if coord > max {
        coord - max
    } else {
        coord
    }
}

/// A wrapped coordinate already inside `[0, max]` is left unchanged.
pub proof fn lemma_bound_to_identity(coord: int, max: int)
    requires
        0 <= coord <= max,
    ensures
        bound_to_spec(coord, max) == coord,
{
}

/// For a coordinate above `max` (by at most `max`), wrapping twice is the
/// same as wrapping once. Above `2 * max` a single wrap still leaves the
/// coordinate above `max`, so idempotence stops there.
pub proof fn lemma_bound_to_idempotent_above(coord: int, max: int)
    requires
        max < coord <= 2 * max,
    ensures
        bound_to_spec(bound_to_spec(coord, max), max) == bound_to_spec(coord, max),
{
}

/// For a negative coordinate the wrap is exactly `max - coord`.
pub proof fn lemma_bound_to_negative(coord: int, max: int)
    requires
        coord < 0,
    ensures
        bound_to_spec(coord, max) == max - coord,
{
}

/// Exec form of the toroidal wrap for one coordinate.
pub fn bound_to(coord: i64, max: i64) -> (r: i64)
    requires
        0 <= max <= COORD_LIMIT,
        -2 * COORD_LIMIT <= coord <= 2 * COORD_LIMIT,
    ensures
        r == bound_to_spec(coord as int, max as int),
{
    if coord < 0 {
        max - coord
    } else if coord > max {
        coord - max
    } else {
        coord
    }
}

/// Both coordinates after the toroidal wrap.
pub open spec fn bound_pos_spec(pos: Vec2i, width: int, height: int) -> Vec2i {
    Vec2i { x: bound_to_spec(pos.x as int, width) as i64, y: bound_to_spec(pos.y as int, height) as i64 }
}

/// Exec form of the toroidal wrap for a position.
pub fn bound_pos(pos: Vec2i, bounds: Bounds) -> (r: Vec2i)
    requires
        bounds.wf(),
        -2 * COORD_LIMIT <= pos.x <= 2 * COORD_LIMIT,
        -2 * COORD_LIMIT <= pos.y <= 2 * COORD_LIMIT,
    ensures
        r == bound_pos_spec(pos, bounds.width as int, bounds.height as int),
{
    Vec2i { x: bound_to(pos.x, bounds.width), y: bound_to(pos.y, bounds.height) }
}

/// Truncating fixed-point rescale: `a / SCALE`, rounded toward zero.
pub open spec fn scale_div_spec(a: int) -> int {
    if a >= 0 {
        a / (SCALE as int)
    } else {
        -((-a) / (SCALE as int))
    }
}

/// Exec form of `scale_div_spec`.
pub fn scale_div(a: i64) -> (r: i64)
    requires
        a != i64::MIN,
    ensures
        r == scale_div_spec(a as int),
        a >= 0 ==> 0 <= r <= a,
        a <= 0 ==> a <= r <= 0,
{
    if a >= 0 {
        proof {
            assert(0 <= (a as int) / 1000 <= a) by (nonlinear_arith)
                requires
                    a >= 0;
        }
        ((a as u64) / 1000) as i64
    } else {
        proof {
            assert(0 <= (-a as int) / 1000 <= -a) by (nonlinear_arith)
                requires
                    -a >= 0;
        }
        -(((-a) as u64 / 1000) as i64)
    }
}

/// The truncating rescale shrinks by the full factor: an input within
/// `m * SCALE` gives a result within `m`.
pub proof fn lemma_scale_div_bound(a: int, m: int)
    requires
        0 <= m,
        -m * 1000 <= a <= m * 1000,
    ensures
        -m <= scale_div_spec(a) <= m,
{
    if a >= 0 {
        lemma_div_is_ordered(a, m * 1000, 1000);
        lemma_div_by_multiple(m, 1000);
        assert(a / 1000 >= 0) by (nonlinear_arith)
            requires
                a >= 0;
    } else {
        lemma_div_is_ordered(-a, m * 1000, 1000);
        lemma_div_by_multiple(m, 1000);
        assert((-a) / 1000 >= 0) by (nonlinear_arith)
            requires
                -a >= 0;
    }
}

/// Integer square root: the largest `r` with `r * r <= n`.
pub fn isqrt(n: u64) -> (r: u64)
    ensures
        r * r <= n < (r + 1) * (r + 1),
{
    let mut r: u64 = 0;
    loop
        invariant
            r * r <= n,
            r <= 0xFFFF_FFFF,
        ensures
            r * r <= n < (r + 1) * (r + 1),
        decreases n - r,
    {
        let rp = r as u128 + 1;
        proof {
            assert(rp * rp <= 0x1_0000_0000_0000_0000) by (nonlinear_arith)
                requires
                    0 <= rp <= 0x1_0000_0000;
        }
        if rp * rp > n as u128 {
            break;
        }
        proof {
            assert(rp <= rp * rp) by (nonlinear_arith)
                requires
                    rp >= 1;
            assert((r + 1) as u64 * (r + 1) as u64 <= n);
            assert(r + 1 <= 0xFFFF_FFFF) by (nonlinear_arith)
                requires
                    (r + 1) * (r + 1) <= 0xFFFF_FFFF_FFFF_FFFF,
                    r >= 0;
        }
        r = r + 1;
    }
    r
}

/// `d` points the same way as `v` and has (fixed-point) length close to one:
/// each component lies within `[-SCALE, SCALE]`, the squared norm is at least
/// `707 * 707`, the sign of each component is kept, and the cross product
/// with `v` is small against `|v|` (the angle between them is small).
pub open spec fn unit_toward(v: Vec2i, d: Vec2i) -> bool {
    &&& -SCALE <= d.x <= SCALE
    &&& -SCALE <= d.y <= SCALE
    &&& d.x * d.x + d.y * d.y >= 499849
    &&& v.x >= 0 ==> d.x >= 0
    &&& v.x <= 0 ==> d.x <= 0
    &&& v.y >= 0 ==> d.y >= 0
    &&& v.y <= 0 ==> d.y <= 0
    &&& (v.x * d.y - v.y * d.x) * (v.x * d.y - v.y * d.x) <= v.x * v.x + v.y * v.y
}

/// `v` is a fixed-point direction of roughly unit length: components within
/// `[-SCALE, SCALE]` and a squared norm of at least `707 * 707`.
pub open spec fn near_unit(v: Vec2i) -> bool {
    &&& -SCALE <= v.x <= SCALE
    &&& -SCALE <= v.y <= SCALE
    &&& v.x * v.x + v.y * v.y >= 499849
}

/// Scales a non-zero vector to fixed-point unit length, rounding each
/// component toward zero.
pub fn scale_to_unit(v: Vec2i) -> (d: Vec2i)
    requires
        -0x7FFF_FFFF <= v.x <= 0x7FFF_FFFF,
        -0x7FFF_FFFF <= v.y <= 0x7FFF_FFFF,
        v.x != 0 || v.y != 0,
    ensures
        unit_toward(v, d),
        near_unit(d),
{
    let ax = (if v.x >= 0 { v.x } else { -v.x }) as u64;
    let ay = (if v.y >= 0 { v.y } else { -v.y }) as u64;
    proof {
        assert(ax * ax < 0x4000_0000_0000_0000 && ay * ay < 0x4000_0000_0000_0000)
            by (nonlinear_arith)
            requires
                0 <= ax < 0x8000_0000,
                0 <= ay < 0x8000_0000;
        assert(ax * ax + ay * ay >= 1) by (nonlinear_arith)
            requires
                ax >= 1 || ay >= 1,
                ax >= 0,
                ay >= 0;
    }
    let s = ax * ax + ay * ay;
    let n = isqrt(s);
    proof {
        assert(n >= 1) by (nonlinear_arith)
            requires
                s >= 1,
                n * n <= s < (n + 1) * (n + 1),
                n >= 0;
        lemma_scaled_component(ax as int, ay as int, s as int, n as int);
        lemma_scaled_component(ay as int, ax as int, s as int, n as int);
    }
    let dx = ax * 1000 / n;
    let dy = ay * 1000 / n;
    let rx = if v.x >= 0 { dx as i64 } else { -(dx as i64) };
    let ry = if v.y >= 0 { dy as i64 } else { -(dy as i64) };
    proof {
        lemma_scaled_norm(ax as int, ay as int, s as int, n as int, dx as int, dy as int);
        lemma_scaled_cross(ax as int, ay as int, n as int, dx as int, dy as int);
        assert((v.x * ry - v.y * rx) * (v.x * ry - v.y * rx) == (ax * dy - ay * dx) * (ax * dy
            - ay * dx)) by (nonlinear_arith)
            requires
                (v.x >= 0 ==> rx == dx && ax == v.x) && (v.x < 0 ==> rx == -dx && ax == -v.x) && (
                v.y >= 0 ==> ry == dy && ay == v.y) && (v.y < 0 ==> ry == -dy && ay == -v.y);
        assert(v.x * v.x + v.y * v.y == ax * ax + ay * ay) by (nonlinear_arith)
            requires
                (v.x >= 0 ==> ax == v.x) && (v.x < 0 ==> ax == -v.x) && (v.y >= 0 ==> ay == v.y)
                    && (v.y < 0 ==> ay == -v.y);
        assert(rx * rx == dx * dx && ry * ry == dy * dy) by (nonlinear_arith)
            requires
                rx == dx || rx == -dx,
                ry == dy || ry == -dy;
    }
    Vec2i { x: rx, y: ry }
}

/// For `n = isqrt(a * a + b * b)`: the rescaled component `a * 1000 / n`
/// stays within `[0, 1000]`.
proof fn lemma_scaled_component(a: int, b: int, s: int, n: int)
    requires
        a >= 0,
        b >= 0,
        s == a * a + b * b,
        s >= 1,
        n >= 1,
        n * n <= s < (n + 1) * (n + 1),
    ensures
        a <= n,
        0 <= a * 1000 / n <= 1000,
{
    assert(a <= n) by (nonlinear_arith)
        requires
            a * a <= s < (n + 1) * (n + 1),
            a >= 0,
            b * b >= 0,
            s == a * a + b * b,
            n >= 0;
    assert(a * 1000 <= n * 1000) by (nonlinear_arith)
        requires
            a <= n;
    lemma_div_is_ordered(a * 1000, n * 1000, n);
    lemma_div_by_multiple(1000, n);
    assert(a * 1000 / n >= 0) by (nonlinear_arith)
        requires
            a * 1000 >= 0,
            n >= 1;
}

/// The rescaled vector keeps a squared norm of at least `707 * 707`.
proof fn lemma_scaled_norm(a: int, b: int, s: int, n: int, da: int, db: int)
    requires
        a >= 0,
        b >= 0,
        s == a * a + b * b,
        s >= 1,
        n >= 1,
        n * n <= s < (n + 1) * (n + 1),
        da == a * 1000 / n,
        db == b * 1000 / n,
        0 <= da <= 1000,
        0 <= db <= 1000,
    ensures
        da * da + db * db >= 499849,
{
    if a * a * 2 >= s {
        assert(707 * n <= a * 1000) by (nonlinear_arith)
            requires
                a * a * 2 >= s >= n * n,
                a >= 0,
                n >= 0;
        lemma_div_is_ordered(707 * n, a * 1000, n);
        lemma_div_by_multiple(707, n);
        assert(da * da >= 499849 && db * db >= 0) by (nonlinear_arith)
            requires
                da >= 707,
                0 <= db;
    } else {
        assert(b * b * 2 >= s) by (nonlinear_arith)
            requires
                s == a * a + b * b,
                a * a * 2 < s;
        assert(707 * n <= b * 1000) by (nonlinear_arith)
            requires
                b * b * 2 >= s >= n * n,
                b >= 0,
                n >= 0;
        lemma_div_is_ordered(707 * n, b * 1000, n);
        lemma_div_by_multiple(707, n);
        assert(db * db >= 499849 && da * da >= 0) by (nonlinear_arith)
            requires
                db >= 707,
                0 <= da;
    }
}

/// Rescaling moves the direction only a little: the cross product of the
/// input with the rescaled vector is bounded by the larger input component.
proof fn lemma_scaled_cross(a: int, b: int, n: int, da: int, db: int)
    requires
        a >= 0,
        b >= 0,
        n >= 1,
        a <= n,
        b <= n,
        da == a * 1000 / n,
        db == b * 1000 / n,
    ensures
        (a * db - b * da) * (a * db - b * da) <= a * a + b * b,
{
    lemma_fundamental_div_mod(a * 1000, n);
    lemma_fundamental_div_mod(b * 1000, n);
    lemma_mod_bound(a * 1000, n);
    lemma_mod_bound(b * 1000, n);
    let ra = (a * 1000) % n;
    let rb = (b * 1000) % n;
    assert(n * (a * db - b * da) == b * ra - a * rb) by (nonlinear_arith)
        requires
            a * 1000 == n * da + ra,
            b * 1000 == n * db + rb;
    assert((a * db - b * da) * (a * db - b * da) <= a * a + b * b) by (nonlinear_arith)
        requires
            n * (a * db - b * da) == b * ra - a * rb,
            0 <= ra < n,
            0 <= rb < n,
            0 <= a <= n,
            0 <= b <= n,
            n >= 1;
}

/// The rectangular play area, in fixed-point world coordinates.
#[derive(Clone, Copy, PartialEq, Eq, Structural, Debug)]
pub struct Bounds {
    pub width: i64,
    pub height: i64,
}

impl Bounds {
    /// The play area has positive extents small enough for the arithmetic.
    pub open spec fn wf(self) -> bool {
        0 < self.width <= COORD_LIMIT && 0 < self.height <= COORD_LIMIT
    }

    pub fn new(width: i64, height: i64) -> (b: Bounds)
        ensures
            b.width == width,
            b.height == height,
    {
        Bounds { width, height }
    }
}

} // verus!
