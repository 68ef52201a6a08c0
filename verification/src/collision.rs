//! Bounding volumes, the overlap tests between them, and the scan of one
//! volume against a set.

use vstd::prelude::*;
use crate::vector::{nearer_than, Point, Vector3};
use crate::collision::aabb::AxisAlignedBoundingBoxCollider;
use crate::collision::sphere::SphereCollider;

pub mod aabb;
pub mod sphere;
pub mod laws;

verus! {

/// The larger of two integers.
pub open spec fn larger(a: int, b: int) -> int {
    if a >= b {
        a
    } else {
        b
    }
}

/// The smaller of two integers.
pub open spec fn smaller(a: int, b: int) -> int {
    if a <= b {
        a
    } else {
        b
    }
}

/// `v` brought into the range from `lo` to `hi`: first capped at `hi`, then
/// raised to `lo`. Where `lo > hi` the result is `lo`.
pub open spec fn clamped(v: int, lo: int, hi: int) -> int {
    larger(lo, smaller(v, hi))
}

/// An axis-aligned box: the points between two corners, faces included.
pub struct Block {
    pub min: Point,
    pub max: Point,
}

/// An open ball: the points strictly nearer to `center` than `radius`.
pub struct Ball {
    pub center: Point,
    pub radius: int,
}

/// What a collider occupies.
pub enum Shape {
    Block(Block),
    Ball(Ball),
}

impl Block {
    /// The box that reaches `half_size` from `center` along each axis.
    pub open spec fn around(center: Point, half_size: Point) -> Block {
        Block { min: center.minus(half_size), max: center.plus(half_size) }
    }

    /// On no axis does the lower corner lie above the upper corner.
    pub open spec fn valid(self) -> bool {
        self.min.x <= self.max.x && self.min.y <= self.max.y && self.min.z <= self.max.z
    }

    /// Both corners can be stored.
    pub open spec fn representable(self) -> bool {
        self.min.representable() && self.max.representable()
    }

    /// `p` lies in the box or on its surface.
    pub open spec fn contains(self, p: Point) -> bool {
        &&& self.min.x <= p.x <= self.max.x
        &&& self.min.y <= p.y <= self.max.y
        &&& self.min.z <= p.z <= self.max.z
    }

    /// On every axis the two boxes overlap or touch.
    pub open spec fn overlaps(self, other: Block) -> bool {
        &&& other.min.x <= self.max.x && other.max.x >= self.min.x
        &&& other.min.y <= self.max.y && other.max.y >= self.min.y
        &&& other.min.z <= self.max.z && other.max.z >= self.min.z
    }

    /// `p` with each coordinate clamped into the box: for a valid box, the
    /// point of the box that is nearest to `p`.
    pub open spec fn closest_point(self, p: Point) -> Point {
        Point {
            x: clamped(p.x, self.min.x, self.max.x),
            y: clamped(p.y, self.min.y, self.max.y),
            z: clamped(p.z, self.min.z, self.max.z),
        }
    }

    /// The point of the box nearest to the ball's center lies inside the ball.
    pub open spec fn reaches_into(self, ball: Ball) -> bool {
        nearer_than(self.closest_point(ball.center).dist_sq(ball.center), ball.radius)
    }
}

impl Ball {
    /// The radius is not negative.
    pub open spec fn valid(self) -> bool {
        self.radius >= 0
    }

    /// `p` lies strictly inside the ball.
    pub open spec fn contains(self, p: Point) -> bool {
        nearer_than(p.dist_sq(self.center), self.radius)
    }

    /// The centers are strictly nearer than the sum of the radii.
    pub open spec fn overlaps(self, other: Ball) -> bool {
        nearer_than(self.center.dist_sq(other.center), self.radius + other.radius)
    }
}

impl Shape {
    /// A box is valid if its corners are in order, a ball if its radius is
    /// not negative.
    pub open spec fn valid(self) -> bool {
        match self {
            Shape::Block(c) => c.valid(),
            Shape::Ball(b) => b.valid(),
        }
    }

    /// The shape of the same kind around `center`: a box reaches `half_size`
    /// along each axis, a ball has the first component of `half_size` as its
    /// radius.
    pub open spec fn moved(self, half_size: Point, center: Point) -> Shape {
        match self {
            Shape::Block(_) => Shape::Block(Block::around(center, half_size)),
            Shape::Ball(_) => Shape::Ball(Ball { center, radius: half_size.x }),
        }
    }

    /// `p` lies in the shape; on the surface counts for a box, not for a ball.
    pub open spec fn contains(self, p: Point) -> bool {
        match self {
            Shape::Block(c) => c.contains(p),
            Shape::Ball(b) => b.contains(p),
        }
    }

    /// The two shapes collide: boxes that touch do, balls that touch do not.
    pub open spec fn collides(self, other: Shape) -> bool {
        match (self, other) {
            (Shape::Block(a), Shape::Block(b)) => a.overlaps(b),
            (Shape::Block(a), Shape::Ball(b)) => a.reaches_into(b),
            (Shape::Ball(a), Shape::Block(b)) => b.reaches_into(a),
            (Shape::Ball(a), Shape::Ball(b)) => a.overlaps(b),
        }
    }
}

/// A collider of either kind.
#[derive(Clone, Copy, Debug, PartialEq, Eq)]
pub enum ColliderEnum {
    AABB(AxisAlignedBoundingBoxCollider),
    Sphere(SphereCollider),
}

impl View for ColliderEnum {
    type V = Shape;

    open spec fn view(&self) -> Shape {
        match self {
            ColliderEnum::AABB(aabb) => Shape::Block(aabb@),
            ColliderEnum::Sphere(sphere) => Shape::Ball(sphere@),
        }
    }
}

impl ColliderEnum {
    /// What `update` leaves in place of `self`: a collider of the same kind
    /// around `center`. A box takes all of `half_size`, a sphere takes its
    /// first component as the radius.
    pub open spec fn updated(self, half_size: Vector3, center: Vector3) -> ColliderEnum {
        match self {
            ColliderEnum::AABB(aabb) => ColliderEnum::AABB(aabb.updated(half_size, center)),
            ColliderEnum::Sphere(sphere) => ColliderEnum::Sphere(
                sphere.updated(half_size.x, center),
            ),
        }
    }

    /// Whether `update` can store its result: a sphere always, a box where
    /// both corners have 32-bit coordinates.
    pub open spec fn can_update(self, half_size: Vector3, center: Vector3) -> bool {
        self is AABB ==> Block::around(center@, half_size@).representable()
    }

    /// Moves the collider to `center`, keeping its kind.
    pub fn update(&mut self, half_size: Vector3, center: Vector3)
        requires
            old(self).can_update(half_size, center),
        ensures
            *final(self) == old(self).updated(half_size, center),
            final(self)@ == old(self)@.moved(half_size@, center@),
            half_size@.non_negative() ==> final(self)@.valid(),
    {
        match self {
            ColliderEnum::AABB(aabb) => aabb.update(half_size, center),
            ColliderEnum::Sphere(sphere) => sphere.update(half_size.x, center),
        }
    }
}

/// What `update_colliders` leaves in place of `colliders`: each collider that
/// has a position is updated with it, the others stay.
pub open spec fn updated_all(
    colliders: Seq<ColliderEnum>,
    positions: Seq<Vector3>,
    half_size: Vector3,
) -> Seq<ColliderEnum> {
    Seq::new(
        colliders.len(),
        |i: int|
            if i < positions.len() {
                colliders[i].updated(half_size, positions[i])
            } else {
                colliders[i]
            },
    )
}

/// Moves each collider to the position with the same index. Where the two
/// lengths differ, the colliders or positions beyond the shorter one are left
/// alone.
pub fn update_colliders(
    all_colliders: &mut Vec<ColliderEnum>,
    positions: &Vec<Vector3>,
    half_size: Vector3,
)
    requires
        forall|i: int|
            0 <= i < old(all_colliders).len() && i < positions.len() ==> (#[trigger] old(
                all_colliders
            )[i]).can_update(half_size, positions[i]),
    ensures
        final(all_colliders)@ == updated_all(old(all_colliders)@, positions@, half_size),
        forall|i: int|
            0 <= i < old(all_colliders).len() && i < positions.len() ==> (#[trigger] final(
                all_colliders
            )[i])@ == old(all_colliders)[i]@.moved(half_size@, positions[i]@),
{
    let n = if all_colliders.len() <= positions.len() {
        all_colliders.len()
    } else {
        positions.len()
    };
    let mut i: usize = 0;
    while i < n
        invariant
            i <= n,
            n <= positions.len(),
            n == all_colliders.len() || n == positions.len(),
            all_colliders.len() == old(all_colliders).len(),
            n <= all_colliders.len(),
            forall|k: int|
                0 <= k < i ==> all_colliders[k] == (#[trigger] old(all_colliders)[k]).updated(
                    half_size,
                    positions[k],
                ),
            forall|k: int|
                0 <= k < i ==> (#[trigger] all_colliders[k])@ == old(all_colliders)[k]@.moved(
                    half_size@,
                    positions[k]@,
                ),
            forall|k: int|
                i <= k < all_colliders.len() ==> all_colliders[k] == #[trigger] old(
                    all_colliders
                )[k],
            forall|k: int|
                0 <= k < old(all_colliders).len() && k < positions.len() ==> (#[trigger] old(
                    all_colliders
                )[k]).can_update(half_size, positions[k]),
        decreases n - i,
    {
        assert(all_colliders[i as int] == old(all_colliders)[i as int]);
        all_colliders[i].update(half_size, positions[i]);
        i += 1;
    }
    assert(all_colliders@ =~= updated_all(old(all_colliders)@, positions@, half_size));
}

/// Some member of `colliders` other than the one at `index` collides with
/// the one at `index`.
pub open spec fn collides_with_another(colliders: Seq<ColliderEnum>, index: int) -> bool {
    exists|other: int|
        0 <= other < colliders.len() && other != index && (#[trigger] colliders[other])@.collides(
            colliders[index]@,
        )
}

/// Whether the collider at `collider_index` collides with any other member of
/// `all_colliders`.
pub fn check_for_collision(collider_index: usize, all_colliders: &Vec<ColliderEnum>) -> (hit: bool)
    requires
        collider_index < all_colliders.len(),
    ensures
        hit == collides_with_another(all_colliders@, collider_index as int),
{
    let collider = &all_colliders[collider_index];
    let mut i: usize = 0;
    while i < all_colliders.len()
        invariant
            i <= all_colliders.len(),
            collider_index < all_colliders.len(),
            *collider == all_colliders[collider_index as int],
            forall|k: int|
                0 <= k < i && k != collider_index ==> !(#[trigger] all_colliders[k])@.collides(
                    collider@,
                ),
        decreases all_colliders.len() - i,
    {
        if i != collider_index {
            let colliding = match &all_colliders[i] {
                ColliderEnum::AABB(aabb) => aabb.is_colliding_with(collider),
                ColliderEnum::Sphere(sphere) => sphere.is_colliding_with(collider),
            };
            if colliding {
                return true;
            }
        }
        i += 1;
    }
    false
}

/// The tests that every collider answers, each stated over the shape that
/// the collider occupies.
pub trait Collider {
    /// The shape that this collider occupies.
    spec fn shape(&self) -> Shape;

    fn is_point_colliding(&self, point: &Vector3) -> (hit: bool)
        ensures
            hit == self.shape().contains(point@),
    ;

    fn is_aabb_colliding(&self, aabb: &AxisAlignedBoundingBoxCollider) -> (hit: bool)
        ensures
            hit == self.shape().collides(Shape::Block(aabb@)),
    ;

    fn is_sphere_colliding(&self, sphere: &SphereCollider) -> (hit: bool)
        ensures
            hit == self.shape().collides(Shape::Ball(sphere@)),
    ;

    fn is_colliding_with(&self, other: &ColliderEnum) -> (hit: bool)
        ensures
            hit == self.shape().collides(other@),
    {
        match other {
            ColliderEnum::AABB(aabb) => self.is_aabb_colliding(aabb),
            ColliderEnum::Sphere(sphere) => self.is_sphere_colliding(sphere),
        }
    }
}

} // verus!
