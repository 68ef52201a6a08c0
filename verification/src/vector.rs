//! Grid vectors and the unbounded points that model them.

use vstd::prelude::*;

verus! {

/// A point, or a displacement, of three-dimensional space with integer
/// coordinates of any size. Contracts are stated over points.
pub struct Point {
    pub x: int,
    pub y: int,
    pub z: int,
}

impl Point {
    /// The componentwise sum.
    pub open spec fn plus(self, other: Point) -> Point {
        Point { x: self.x + other.x, y: self.y + other.y, z: self.z + other.z }
    }

    /// The componentwise difference.
    pub open spec fn minus(self, other: Point) -> Point {
        Point { x: self.x - other.x, y: self.y - other.y, z: self.z - other.z }
    }

    /// The square of the Euclidean distance between two points.
    pub open spec fn dist_sq(self, other: Point) -> int {
        (self.x - other.x) * (self.x - other.x) + (self.y - other.y) * (self.y - other.y) + (self.z
            - other.z) * (self.z - other.z)
    }

    /// No coordinate is negative.
    pub open spec fn non_negative(self) -> bool {
        0 <= self.x && 0 <= self.y && 0 <= self.z
    }

    /// Every coordinate can be stored in a [`Vector3`].
    pub open spec fn representable(self) -> bool {
        &&& i32::MIN <= self.x <= i32::MAX
        &&& i32::MIN <= self.y <= i32::MAX
        &&& i32::MIN <= self.z <= i32::MAX
    }
}

/// Whether a distance, given by its square, is strictly less than `reach`.
///
/// For `dist_sq >= 0` this is the statement `sqrt(dist_sq) < reach`: a
/// distance is never negative, so nothing is nearer than a reach of zero or
/// less, and squaring keeps the order of positive numbers.
pub open spec fn nearer_than(dist_sq: int, reach: int) -> bool {
    0 < reach && dist_sq < reach * reach
}

/// Comparing squares decides as comparing roots would: where `root` is the
/// square root of `dist_sq`, rounded down, the distance is less than a whole
/// number `reach` exactly if `root` is.
pub proof fn lemma_nearer_than_by_root(dist_sq: int, root: int, reach: int)
    requires
        0 <= root,
        root * root <= dist_sq < (root + 1) * (root + 1),
    ensures
        nearer_than(dist_sq, reach) == (root < reach),
{
    if root < reach {
        assert((root + 1) * (root + 1) <= reach * reach) by (nonlinear_arith)
            requires
                0 <= root + 1 <= reach,
        ;
    } else if 0 < reach {
        assert(reach * reach <= root * root) by (nonlinear_arith)
            requires
                0 < reach <= root,
        ;
    }
}

/// A point or a displacement with 32-bit coordinates.
#[derive(Clone, Copy, Debug, PartialEq, Eq)]
pub struct Vector3 {
    pub x: i32,
    pub y: i32,
    pub z: i32,
}

impl View for Vector3 {
    type V = Point;

    open spec fn view(&self) -> Point {
        Point { x: self.x as int, y: self.y as int, z: self.z as int }
    }
}

impl Vector3 {
    /// The vector with these coordinates.
    pub fn new(x: i32, y: i32, z: i32) -> (v: Self)
        ensures
            v@ == (Point { x: x as int, y: y as int, z: z as int }),
    {
        Vector3 { x, y, z }
    }

    /// The square of the distance to `other`, which always fits the result.
    pub fn distance_squared(&self, other: &Vector3) -> (d: i128)
        ensures
            d == self@.dist_sq(other@),
    {
        let dx: i128 = self.x as i128 - other.x as i128;
        let dy: i128 = self.y as i128 - other.y as i128;
        let dz: i128 = self.z as i128 - other.z as i128;
        proof {
            lemma_square_bound(dx as int);
            lemma_square_bound(dy as int);
            lemma_square_bound(dz as int);
        }
        dx * dx + dy * dy + dz * dz
    }
}

/// Whether the distance whose square is `dist_sq` is strictly less than
/// `reach`, decided without taking a root.
pub(crate) fn is_nearer_than(dist_sq: i128, reach: i64) -> (near: bool)
    ensures
        near == nearer_than(dist_sq as int, reach as int),
{
    if reach <= 0 {
        false
    } else {
        let wide: i128 = reach as i128;
        assert(0 <= wide * wide <= 0x4000_0000_0000_0000_0000_0000_0000_0000) by (nonlinear_arith)
            requires
                0 <= wide <= 0x8000_0000_0000_0000,
        ;
        dist_sq < wide * wide
    }
}

/// The square of a difference of two 32-bit numbers stays far below the
/// limit of 128 bits.
proof fn lemma_square_bound(d: int)
    by (nonlinear_arith)
    requires
        -0x1_0000_0000 <= d <= 0x1_0000_0000,
    ensures
        0 <= d * d <= 0x1_0000_0000_0000_0000,
{
}

} // verus!
