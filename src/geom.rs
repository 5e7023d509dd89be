//! Grid positions and the eight movement directions.
use vstd::prelude::*;

verus! {

/// A position (or offset) on a map grid.
#[derive(Clone, Copy, Debug, PartialEq, Eq, Structural)]
pub struct Vec2d(pub i32, pub i32);

/// A step direction; each component is -1, 0 or 1.
#[derive(Clone, Copy, Debug, PartialEq, Eq, Structural)]
pub struct Direction {
    pub hdir: i32,
    pub vdir: i32,
}

impl Direction {
    pub open spec fn valid(self) -> bool {
        -1 <= self.hdir <= 1 && -1 <= self.vdir <= 1
    }

    pub fn new(hdir: i32, vdir: i32) -> (r: Direction)
        requires
            -1 <= hdir <= 1,
            -1 <= vdir <= 1,
        ensures
            r.hdir == hdir,
            r.vdir == vdir,
            r.valid(),
    {
        Direction { hdir, vdir }
    }

    pub fn none() -> (r: Direction)
        ensures
            r.hdir == 0 && r.vdir == 0,
    {
        Direction { hdir: 0, vdir: 0 }
    }

    /// The offset that one step in this direction moves by.
    pub fn as_vec(&self) -> (r: (i32, i32))
        ensures
            r == (self.hdir, self.vdir),
    {
        (self.hdir, self.vdir)
    }
}

impl Vec2d {
    /// The position one step away in direction `dir`.
    pub open spec fn step_spec(self, dir: Direction) -> Vec2d {
        Vec2d((self.0 + dir.hdir) as i32, (self.1 + dir.vdir) as i32)
    }

    pub fn step(&self, dir: Direction) -> (r: Vec2d)
        requires
            dir.valid(),
            i32::MIN < self.0 < i32::MAX,
            i32::MIN < self.1 < i32::MAX,
        ensures
            r == self.step_spec(dir),
            r.0 == self.0 + dir.hdir,
            r.1 == self.1 + dir.vdir,
    {
        Vec2d(self.0 + dir.hdir, self.1 + dir.vdir)
    }
}

} // verus!
