//! Small shared traits.

use vstd::prelude::*;
use crate::geometry::Vec2;

verus! {

/// A value made of two parts.
pub trait Pair {
    type First;

    type Second;

    fn as_pair(&self) -> (Self::First, Self::Second);
}

impl Pair for Vec2 {
    type First = i64;

    type Second = i64;

    fn as_pair(&self) -> (i64, i64) {
        (self.x, self.y)
    }
}

} // verus!
