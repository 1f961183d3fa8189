//! Position of an entity in the arena.

use vstd::prelude::*;
use crate::units::{clamp, offset};

verus! {

/// Where an entity stands, in sub-units. `z` orders drawing only and is never
/// read by any movement rule.
#[derive(Clone, Copy, Debug, PartialEq, Eq, Structural)]
pub struct Transform {
    pub x: i64,
    pub y: i64,
    pub z: i64,
}

impl Transform {
    /// The transform moved by `dx` along x, pinned to the range of `i64`.
    pub open spec fn moved_x(self, dx: int) -> Transform {
        Transform { x: clamp(self.x + dx) as i64, y: self.y, z: self.z }
    }

    /// The transform moved by `dy` along y, pinned to the range of `i64`.
    pub open spec fn moved_y(self, dy: int) -> Transform {
        Transform { x: self.x, y: clamp(self.y + dy) as i64, z: self.z }
    }

    /// A transform at the origin.
    pub fn new() -> (t: Transform)
        ensures
            t == (Transform { x: 0, y: 0, z: 0 }),
    {
        Transform { x: 0, y: 0, z: 0 }
    }

    /// A transform at the given place.
    pub fn at(x: i64, y: i64, z: i64) -> (t: Transform)
        ensures
            t == (Transform { x, y, z }),
    {
        Transform { x, y, z }
    }

    /// Places the transform, whatever it held before.
    pub fn set_xyz(&mut self, x: i64, y: i64, z: i64)
        ensures
            *final(self) == (Transform { x, y, z }),
    {
        self.x = x;
        self.y = y;
        self.z = z;
    }

    /// Adds `dx` to x and leaves y and z alone.
    pub fn translate_x(&mut self, dx: i64)
        ensures
            *final(self) == old(self).moved_x(dx as int),
    {
        self.x = offset(self.x, dx);
    }

    /// Adds `dy` to y and leaves x and z alone.
    pub fn translate_y(&mut self, dy: i64)
        ensures
            *final(self) == old(self).moved_y(dy as int),
    {
        self.y = offset(self.y, dy);
    }

    /// The three coordinates, x first.
    pub fn translation(&self) -> (r: [i64; 3])
        ensures
            r@ == seq![self.x, self.y, self.z],
    {
        [self.x, self.y, self.z]
    }
}

} // verus!
