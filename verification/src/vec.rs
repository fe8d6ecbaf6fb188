//! Two-dimensional points and sizes, counted in character cells.

use vstd::prelude::*;

verus! {

/// A position or a size on the screen: `x` columns and `y` rows.
#[derive(Clone, Copy, Debug, PartialEq, Eq, Structural)]
pub struct Vec2 {
    pub x: usize,
    pub y: usize,
}

impl Vec2 {
    /// The vector with the given coordinates.
    pub fn new(x: usize, y: usize) -> (v: Vec2)
        ensures
            v == (Vec2 { x, y }),
    {
        Vec2 { x, y }
    }

    /// The origin, which is also the empty size.
    pub fn zero() -> (v: Vec2)
        ensures
            v == (Vec2 { x: 0, y: 0 }),
    {
        Vec2 { x: 0, y: 0 }
    }

    /// A size is empty when it holds no cell: one of its sides is zero.
    pub open spec fn is_empty(self) -> bool {
        self.x == 0 || self.y == 0
    }

    /// The smaller of the two on each axis.
    pub open spec fn min_spec(self, other: Vec2) -> Vec2 {
        Vec2 {
            x: if self.x <= other.x { self.x } else { other.x },
            y: if self.y <= other.y { self.y } else { other.y },
        }
    }

    /// On each axis, `self` less `other`, or zero where `other` is the larger.
    pub open spec fn saturating_sub_spec(self, other: Vec2) -> Vec2 {
        Vec2 {
            x: if self.x >= other.x { (self.x - other.x) as usize } else { 0 },
            y: if self.y >= other.y { (self.y - other.y) as usize } else { 0 },
        }
    }

    /// The largest size that fits in both `self` and `other`.
    #[verifier::when_used_as_spec(min_spec)]
    pub fn min(self, other: Vec2) -> (v: Vec2)
        ensures
            v == self.min_spec(other),
    {
        Vec2 {
            x: if self.x <= other.x { self.x } else { other.x },
            y: if self.y <= other.y { self.y } else { other.y },
        }
    }

    /// What is left of `self` once `other` is taken away, never below zero.
    #[verifier::when_used_as_spec(saturating_sub_spec)]
    pub fn saturating_sub(self, other: Vec2) -> (v: Vec2)
        ensures
            v == self.saturating_sub_spec(other),
    {
        Vec2 {
            x: if self.x >= other.x { self.x - other.x } else { 0 },
            y: if self.y >= other.y { self.y - other.y } else { 0 },
        }
    }
}

} // verus!
