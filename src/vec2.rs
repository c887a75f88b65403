use vstd::prelude::*;

verus! {

/// A signed displacement on the board.
#[derive(Clone, Copy, Debug, PartialEq, Eq, Structural)]
pub struct Vec2 {
    pub x: i32,
    pub y: i32,
}

impl Vec2 {
    pub fn new(x: i32, y: i32) -> (r: Self)
        ensures
            r.x == x,
            r.y == y,
    {
        Self { x, y }
    }

    pub fn x(&self) -> (r: i32)
        ensures
            r == self.x,
    {
        self.x
    }

    pub fn y(&self) -> (r: i32)
        ensures
            r == self.y,
    {
        self.y
    }

    pub fn set_x(&mut self, x: i32)
        ensures
            *final(self) == (Vec2 { x, y: old(self).y }),
    {
        self.x = x;
    }

    pub fn set_y(&mut self, y: i32)
        ensures
            *final(self) == (Vec2 { x: old(self).x, y }),
    {
        self.y = y;
    }

    /// Component-wise sum of two displacements.
    pub fn add(&self, other: &Vec2) -> (r: Self)
        requires
            i32::MIN <= self.x + other.x <= i32::MAX,
            i32::MIN <= self.y + other.y <= i32::MAX,
        ensures
            r.x == self.x + other.x,
            r.y == self.y + other.y,
    {
        Self { x: self.x + other.x(), y: self.y + other.y() }
    }

    /// The displacement scaled by `n` (used to walk a ray `n` steps).
    pub fn mul(&self, n: i32) -> (r: Self)
        requires
            i32::MIN <= self.x * n <= i32::MAX,
            i32::MIN <= self.y * n <= i32::MAX,
        ensures
            r.x == self.x * n,
            r.y == self.y * n,
    {
        Self { x: self.x * n, y: self.y * n }
    }
}

} // verus!
