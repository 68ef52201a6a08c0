//! The axis-aligned bounding box.

use vstd::prelude::*;
use crate::vector::{is_nearer_than, Vector3};
use crate::collision::{Block, Collider, Shape};
use crate::collision::sphere::SphereCollider;

verus! {

/// A box with edges along the axes, held as its lowest and its highest
/// corner.
#[derive(Clone, Copy, Debug, PartialEq, Eq)]
pub struct AxisAlignedBoundingBoxCollider {
    pub min: Vector3,
    pub max: Vector3,
}

impl View for AxisAlignedBoundingBoxCollider {
    type V = Block;

    open spec fn view(&self) -> Block {
        Block { min: self.min@, max: self.max@ }
    }
}

/// `v` clamped into the range from `lo` to `hi`.
fn clamp(v: i32, lo: i32, hi: i32) -> (c: i32)
    ensures
        c == crate::collision::clamped(v as int, lo as int, hi as int),
{
    let capped: i32 = if v <= hi {
        v
    } else {
        hi
    };
    if lo >= capped {
        lo
    } else {
        capped
    }
}

impl AxisAlignedBoundingBoxCollider {
    /// Whether the box around `center` with `half_size` can be stored: both of
    /// its corners have 32-bit coordinates.
    pub fn fits(half_size: Vector3, center: Vector3) -> (ok: bool)
        ensures
            ok == Block::around(center@, half_size@).representable(),
    {
        let lo: i64 = i32::MIN as i64;
        let hi: i64 = i32::MAX as i64;
        let cx: i64 = center.x as i64;
        let cy: i64 = center.y as i64;
        let cz: i64 = center.z as i64;
        let hx: i64 = half_size.x as i64;
        let hy: i64 = half_size.y as i64;
        let hz: i64 = half_size.z as i64;
        lo <= cx - hx && cx - hx <= hi && lo <= cy - hy && cy - hy <= hi && lo <= cz - hz && cz
            - hz <= hi && lo <= cx + hx && cx + hx <= hi && lo <= cy + hy && cy + hy <= hi && lo
            <= cz + hz && cz + hz <= hi
    }

    /// The box that reaches `half_size` from `center` along each axis. A
    /// half size without negative components gives a valid box.
    pub fn new(half_size: Vector3, center: Vector3) -> (aabb: Self)
        requires
            Block::around(center@, half_size@).representable(),
        ensures
            aabb@ == Block::around(center@, half_size@),
            half_size@.non_negative() ==> aabb@.valid(),
    {
        Self {
            min: Vector3 {
                x: center.x - half_size.x,
                y: center.y - half_size.y,
                z: center.z - half_size.z,
            },
            max: Vector3 {
                x: center.x + half_size.x,
                y: center.y + half_size.y,
                z: center.z + half_size.z,
            },
        }
    }

    /// What `update` leaves in place of `self`: the box around `center`,
    /// whatever `self` was.
    pub open spec fn updated(self, half_size: Vector3, center: Vector3) -> Self {
        AxisAlignedBoundingBoxCollider {
            min: Vector3 {
                x: (center.x - half_size.x) as i32,
                y: (center.y - half_size.y) as i32,
                z: (center.z - half_size.z) as i32,
            },
            max: Vector3 {
                x: (center.x + half_size.x) as i32,
                y: (center.y + half_size.y) as i32,
                z: (center.z + half_size.z) as i32,
            },
        }
    }

    /// Moves and resizes the box: both corners are replaced together, and
    /// nothing of the old box is kept.
    pub fn update(&mut self, half_size: Vector3, center: Vector3)
        requires
            Block::around(center@, half_size@).representable(),
        ensures
            *final(self) == old(self).updated(half_size, center),
            final(self)@ == Block::around(center@, half_size@),
            half_size@.non_negative() ==> final(self)@.valid(),
    {
        self.min = Vector3 {
            x: center.x - half_size.x,
            y: center.y - half_size.y,
            z: center.z - half_size.z,
        };
        self.max = Vector3 {
            x: center.x + half_size.x,
            y: center.y + half_size.y,
            z: center.z + half_size.z,
        };
    }

    /// `point` with each coordinate clamped into the box.
    pub fn closest_point(&self, point: &Vector3) -> (closest: Vector3)
        ensures
            closest@ == self@.closest_point(point@),
    {
        Vector3 {
            x: clamp(point.x, self.min.x, self.max.x),
            y: clamp(point.y, self.min.y, self.max.y),
            z: clamp(point.z, self.min.z, self.max.z),
        }
    }
}

impl Collider for AxisAlignedBoundingBoxCollider {
    open spec fn shape(&self) -> Shape {
        Shape::Block(self@)
    }

    /// Whether `point` lies in the box, its surface included.
    fn is_point_colliding(&self, point: &Vector3) -> (hit: bool)
        ensures
            hit == self@.contains(point@),
    {
        point.x >= self.min.x && point.x <= self.max.x && point.y >= self.min.y && point.y
            <= self.max.y && point.z >= self.min.z && point.z <= self.max.z
    }

    /// Whether the two boxes overlap or touch on every axis.
    fn is_aabb_colliding(&self, aabb: &AxisAlignedBoundingBoxCollider) -> (hit: bool)
        ensures
            hit == self@.overlaps(aabb@),
    {
        aabb.min.x <= self.max.x && aabb.max.x >= self.min.x && aabb.min.y <= self.max.y
            && aabb.max.y >= self.min.y && aabb.min.z <= self.max.z && aabb.max.z >= self.min.z
    }

    /// Whether the point of the box that is closest to the center of the
    /// sphere is nearer to it than the radius.
    fn is_sphere_colliding(&self, sphere: &SphereCollider) -> (hit: bool)
        ensures
            hit == self@.reaches_into(sphere@),
    {
        let closest = self.closest_point(&sphere.center);
        is_nearer_than(closest.distance_squared(&sphere.center), sphere.radius as i64)
    }
}

} // verus!
