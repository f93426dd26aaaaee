//! The library's only gateway to the `rand` crate: one trusted range
//! sampler, with the fair coin flip and the random direction generator built
//! on top of it in verified code.

use crate::geom::{near_unit, scale_to_unit, Vec2i, SCALE};
use rand::Rng;
use vstd::prelude::*;

verus! {

/// Relies on `rand::Rng::gen_range` over an inclusive integer range: the
/// sampled value lies inside the range. The call panics only on an empty
/// range, which the precondition rules out.
#[verifier::external_body]
pub fn rand_i64_range(lo: i64, hi: i64) -> (r: i64)
    requires
        lo <= hi,
    ensures
        lo <= r <= hi,
{
    rand::thread_rng().gen_range(lo..=hi)
}

/// A fair coin flip.
pub fn rand_bool() -> bool {
    rand_i64_range(0, 1) == 1
}

/// A random direction of roughly unit length, drawn by rejection from the
/// unit disc; after a run of rejections it falls back to pointing right.
pub fn random_unit_dir() -> (d: Vec2i)
    ensures
        near_unit(d),
{
    let mut tries: u8 = 0;
    while tries < 32
        decreases 32 - tries,
    {
        let x = rand_i64_range(-SCALE, SCALE);
        let y = rand_i64_range(-SCALE, SCALE);
        proof {
            assert(0 <= x * x <= 1000000 && 0 <= y * y <= 1000000) by (nonlinear_arith)
                requires
                    -1000 <= x <= 1000,
                    -1000 <= y <= 1000;
        }
        let s = x * x + y * y;
        if 250000 <= s && s <= 1000000 {
            proof {
                assert(x != 0 || y != 0);
            }
            return scale_to_unit(Vec2i { x, y });
        }
        tries = tries + 1;
    }
    Vec2i { x: SCALE, y: 0 }
}

} // verus!
