use vstd::prelude::*;

verus! {

/// A two-dimensional vector in whole pixels (screen coordinates: `y` grows
/// downwards).
#[derive(Clone, Copy, Debug, PartialEq, Eq, Structural)]
pub struct Vec2 {
    pub x: i32,
    pub y: i32,
}

impl Vec2 {
    /// Builds the vector `(x, y)`.
    pub fn new(x: i32, y: i32) -> (v: Vec2)
        ensures
            v.x == x,
            v.y == y,
    {
        Vec2 { x, y }
    }

    /// Whether `self + other` has both coordinates inside `i32`.
    pub open spec fn can_add(self, other: Vec2) -> bool {
        &&& i32::MIN <= self.x + other.x <= i32::MAX
        &&& i32::MIN <= self.y + other.y <= i32::MAX
    }

    /// The componentwise sum.
    pub open spec fn spec_add(self, other: Vec2) -> Vec2 {
        Vec2 { x: (self.x + other.x) as i32, y: (self.y + other.y) as i32 }
    }

    /// Componentwise sum of two vectors.
    pub fn add(self, other: Vec2) -> (v: Vec2)
        requires
            self.can_add(other),
        ensures
            v == self.spec_add(other),
            v.x == self.x + other.x,
            v.y == self.y + other.y,
    {
        Vec2 { x: self.x + other.x, y: self.y + other.y }
    }
}

} // verus!
