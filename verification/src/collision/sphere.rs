//! The bounding sphere.

use vstd::prelude::*;
use crate::vector::{is_nearer_than, Vector3};
use crate::collision::{Ball, Collider, Shape};
use crate::collision::aabb::AxisAlignedBoundingBoxCollider;

verus! {

/// A sphere, held as its radius and its center. A radius of zero or less is
/// accepted: such a sphere holds no point and reaches into no box, and
/// against another sphere only the sum of the two radii counts.
#[derive(Clone, Copy, Debug, PartialEq, Eq)]
pub struct SphereCollider {
    pub radius: i32,
    pub center: Vector3,
}

impl View for SphereCollider {
    type V = Ball;

    open spec fn view(&self) -> Ball {
        Ball { center: self.center@, radius: self.radius as int }
    }
}

impl SphereCollider {
    /// The sphere of that radius around `center`. A radius that is not
    /// negative gives a valid sphere.
    pub fn new(radius: i32, center: Vector3) -> (sphere: Self)
        ensures
            sphere@ == (Ball { center: center@, radius: radius as int }),
            radius >= 0 ==> sphere@.valid(),
    {
        Self { radius, center }
    }

    /// What `update` leaves in place of `self`: the sphere of that radius
    /// around `center`, whatever `self` was.
    pub open spec fn updated(self, radius: i32, center: Vector3) -> Self {
        SphereCollider { radius, center }
    }

    /// Moves and resizes the sphere: radius and center are replaced together,
    /// and nothing of the old sphere is kept.
    pub fn update(&mut self, radius: i32, center: Vector3)
        ensures
            *final(self) == old(self).updated(radius, center),
            final(self)@ == (Ball { center: center@, radius: radius as int }),
            radius >= 0 ==> final(self)@.valid(),
    {
        self.radius = radius;
        self.center = center;
    }
}

impl Collider for SphereCollider {
    open spec fn shape(&self) -> Shape {
        Shape::Ball(self@)
    }

    /// Whether `point` is nearer to the center than the radius.
    fn is_point_colliding(&self, point: &Vector3) -> (hit: bool)
        ensures
            hit == self@.contains(point@),
    {
        is_nearer_than(point.distance_squared(&self.center), self.radius as i64)
    }

    /// Whether the point of the box that is closest to the center of the
    /// sphere is nearer to it than the radius.
    fn is_aabb_colliding(&self, aabb: &AxisAlignedBoundingBoxCollider) -> (hit: bool)
        ensures
            hit == aabb@.reaches_into(self@),
    {
        let closest = aabb.closest_point(&self.center);
        is_nearer_than(closest.distance_squared(&self.center), self.radius as i64)
    }

    /// Whether the centers are nearer to each other than the sum of the
    /// radii.
    fn is_sphere_colliding(&self, sphere: &SphereCollider) -> (hit: bool)
        ensures
            hit == self@.overlaps(sphere@),
    {
        is_nearer_than(
            self.center.distance_squared(&sphere.center),
            self.radius as i64 + sphere.radius as i64,
        )
    }
}

} // verus!
