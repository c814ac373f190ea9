//! Axis-aligned bounding volumes over integer document coordinates.
//!
//! Coordinates are plain `i64` values in document units. All operations are
//! total within [`COORD_LIMIT`]; the sentinel box returned by
//! [`Aabb::new_invalid`] acts as the identity of [`Aabb::merged`].

use vstd::prelude::*;

verus! {

/// Largest coordinate magnitude the geometric operations are specified for.
///
/// Keeping coordinates within this bound makes merging, loosening and
/// extent computations free of overflow (2^56).
pub const COORD_LIMIT: i64 = 0x100_0000_0000_0000;

/// A two-dimensional vector in document coordinates.
#[derive(Clone, Copy, Debug, PartialEq, Eq)]
pub struct Vec2 {
    pub x: i64,
    pub y: i64,
}

/// An axis-aligned box given by its componentwise minimum and maximum corners.
#[derive(Clone, Copy, Debug, PartialEq, Eq)]
pub struct Aabb {
    pub mins: Vec2,
    pub maxs: Vec2,
}

impl Vec2 {
    /// True when both components have magnitude at most [`COORD_LIMIT`].
    pub open spec fn spec_in_range(self) -> bool {
        -COORD_LIMIT <= self.x <= COORD_LIMIT && -COORD_LIMIT <= self.y <= COORD_LIMIT
    }

    pub fn new(x: i64, y: i64) -> (r: Vec2)
        ensures
            r == (Vec2 { x, y }),
    {
        Vec2 { x, y }
    }
}

impl Aabb {
    /// True when all four coordinates have magnitude at most [`COORD_LIMIT`].
    pub open spec fn spec_in_range(self) -> bool {
        self.mins.spec_in_range() && self.maxs.spec_in_range()
    }

    /// A box is valid when its minimum corner lies componentwise at or below
    /// its maximum corner.
    pub open spec fn spec_valid(self) -> bool {
        self.mins.x <= self.maxs.x && self.mins.y <= self.maxs.y
    }

    /// What merging two boxes yields: the componentwise union box.
    pub open spec fn spec_merged(self, other: Aabb) -> Aabb {
        Aabb {
            mins: Vec2 {
                x: if self.mins.x <= other.mins.x {
                    self.mins.x
                } else {
                    other.mins.x
                },
                y: if self.mins.y <= other.mins.y {
                    self.mins.y
                } else {
                    other.mins.y
                },
            },
            maxs: Vec2 {
                x: if self.maxs.x >= other.maxs.x {
                    self.maxs.x
                } else {
                    other.maxs.x
                },
                y: if self.maxs.y >= other.maxs.y {
                    self.maxs.y
                } else {
                    other.maxs.y
                },
            },
        }
    }

    /// What loosening by `margin` yields: every side moved outward by `margin`.
    pub open spec fn spec_loosened(self, margin: i64) -> Aabb
        recommends
            self.spec_in_range(),
            -COORD_LIMIT <= margin <= COORD_LIMIT,
    {
        Aabb {
            mins: Vec2 { x: (self.mins.x - margin) as i64, y: (self.mins.y - margin) as i64 },
            maxs: Vec2 { x: (self.maxs.x + margin) as i64, y: (self.maxs.y + margin) as i64 },
        }
    }

    /// What the extents are: the componentwise size of the box.
    pub open spec fn spec_extents(self) -> Vec2
        recommends
            self.spec_in_range(),
    {
        Vec2 { x: (self.maxs.x - self.mins.x) as i64, y: (self.maxs.y - self.mins.y) as i64 }
    }

    /// True when `self` fully encloses `other` componentwise.
    pub open spec fn spec_contains(self, other: Aabb) -> bool {
        self.mins.x <= other.mins.x && self.mins.y <= other.mins.y && other.maxs.x <= self.maxs.x
            && other.maxs.y <= self.maxs.y
    }

    pub fn new(mins: Vec2, maxs: Vec2) -> (r: Aabb)
        ensures
            r == (Aabb { mins, maxs }),
    {
        Aabb { mins, maxs }
    }

    /// The sentinel box that merges as the identity: its minimum corner sits at
    /// `(COORD_LIMIT, COORD_LIMIT)` and its maximum at the negation, so merging
    /// it with any in-range box yields that box unchanged.
    pub fn new_invalid() -> (r: Aabb)
        ensures
            r == Self::spec_new_invalid(),
            !r.spec_valid(),
            r.spec_in_range(),
    {
        Aabb {
            mins: Vec2 { x: COORD_LIMIT, y: COORD_LIMIT },
            maxs: Vec2 { x: -COORD_LIMIT, y: -COORD_LIMIT },
        }
    }

    pub open spec fn spec_new_invalid() -> Aabb {
        Aabb {
            mins: Vec2 { x: COORD_LIMIT, y: COORD_LIMIT },
            maxs: Vec2 { x: (-COORD_LIMIT) as i64, y: (-COORD_LIMIT) as i64 },
        }
    }

    /// Whether the box is valid (minimum corner at or below the maximum).
    pub fn valid(&self) -> (r: bool)
        ensures
            r == self.spec_valid(),
    {
        self.mins.x <= self.maxs.x && self.mins.y <= self.maxs.y
    }

    /// The union box of `self` and `other`.
    pub fn merged(&self, other: &Aabb) -> (r: Aabb)
        ensures
            r == self.spec_merged(*other),
    {
        Aabb {
            mins: Vec2 {
                x: if self.mins.x <= other.mins.x {
                    self.mins.x
                } else {
                    other.mins.x
                },
                y: if self.mins.y <= other.mins.y {
                    self.mins.y
                } else {
                    other.mins.y
                },
            },
            maxs: Vec2 {
                x: if self.maxs.x >= other.maxs.x {
                    self.maxs.x
                } else {
                    other.maxs.x
                },
                y: if self.maxs.y >= other.maxs.y {
                    self.maxs.y
                } else {
                    other.maxs.y
                },
            },
        }
    }

    /// The box with every side moved outward by `margin`. A negative margin
    /// shrinks the box and may make it invalid; validity is the caller's to
    /// check.
    pub fn loosened(&self, margin: i64) -> (r: Aabb)
        requires
            self.spec_in_range(),
            -COORD_LIMIT <= margin <= COORD_LIMIT,
        ensures
            r == self.spec_loosened(margin),
    {
        Aabb {
            mins: Vec2 { x: self.mins.x - margin, y: self.mins.y - margin },
            maxs: Vec2 { x: self.maxs.x + margin, y: self.maxs.y + margin },
        }
    }

    /// The componentwise size of the box.
    pub fn extents(&self) -> (r: Vec2)
        requires
            self.spec_in_range(),
        ensures
            r == self.spec_extents(),
    {
        Vec2 { x: self.maxs.x - self.mins.x, y: self.maxs.y - self.mins.y }
    }

    /// Whether `self` fully encloses `other`.
    pub fn contains(&self, other: &Aabb) -> (r: bool)
        ensures
            r == self.spec_contains(*other),
    {
        self.mins.x <= other.mins.x && self.mins.y <= other.mins.y && other.maxs.x <= self.maxs.x
            && other.maxs.y <= self.maxs.y
    }
}

/// Merging is commutative.
pub proof fn lemma_merged_commutative(a: Aabb, b: Aabb)
    ensures
        a.spec_merged(b) == b.spec_merged(a),
{
}

/// Merging is associative.
pub proof fn lemma_merged_associative(a: Aabb, b: Aabb, c: Aabb)
    ensures
        a.spec_merged(b).spec_merged(c) == a.spec_merged(b.spec_merged(c)),
{
}

/// The sentinel box is the identity of merging, on both sides, for every
/// in-range box.
pub proof fn lemma_merged_identity(a: Aabb)
    requires
        a.spec_in_range(),
    ensures
        Aabb::spec_new_invalid().spec_merged(a) == a,
        a.spec_merged(Aabb::spec_new_invalid()) == a,
{
}

} // verus!
