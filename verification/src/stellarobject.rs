//! The capability every moving entity offers: a position, a speed and a
//! radius, readable and (for the position) writable.

use crate::geom::Vec2i;
use vstd::prelude::*;

verus! {

pub trait StellarObject: Sized {
    spec fn obj_position(&self) -> Vec2i;

    spec fn obj_speed(&self) -> Vec2i;

    spec fn obj_size(&self) -> i64;

    fn get_position(&self) -> (p: Vec2i)
        ensures
            p == self.obj_position(),
    ;

    fn get_speed(&self) -> (v: Vec2i)
        ensures
            v == self.obj_speed(),
    ;

    fn get_size(&self) -> (s: i64)
        ensures
            s == self.obj_size(),
    ;

    fn set_position(&mut self, position: Vec2i)
        ensures
            final(self).obj_position() == position,
            final(self).obj_speed() == old(self).obj_speed(),
            final(self).obj_size() == old(self).obj_size(),
    ;
}

} // verus!
