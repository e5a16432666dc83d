//! A plain coordinate pair, shared by the map generator and the grid world.

use vstd::prelude::*;

verus! {

/// A pair of coordinates, `x` across and `y` down.
#[derive(Copy, Clone, Debug)]
pub struct Pair<T> {
    pub x: T,
    pub y: T,
}

impl<T> Pair<T> {
    pub fn new(x: T, y: T) -> (p: Pair<T>)
        ensures
            p.x == x,
            p.y == y,
    {
        Pair { x, y }
    }
}

} // verus!
