//! Laws of the overlap tests, of the updates and of the scan.

use vstd::prelude::*;
use crate::vector::{Point, Vector3};
use crate::collision::{
    clamped, collides_with_another, updated_all, Ball, Block, ColliderEnum, Shape,
};
use crate::collision::aabb::AxisAlignedBoundingBoxCollider;
use crate::collision::sphere::SphereCollider;

verus! {

/// The distance from `p` to `q` is the distance from `q` to `p`.
pub proof fn lemma_dist_sq_symmetric(p: Point, q: Point)
    ensures
        p.dist_sq(q) == q.dist_sq(p),
{
    assert((p.x - q.x) * (p.x - q.x) == (q.x - p.x) * (q.x - p.x)) by (nonlinear_arith);
    assert((p.y - q.y) * (p.y - q.y) == (q.y - p.y) * (q.y - p.y)) by (nonlinear_arith);
    assert((p.z - q.z) * (p.z - q.z) == (q.z - p.z) * (q.z - p.z)) by (nonlinear_arith);
}

/// Two boxes overlap whichever of them is asked.
pub proof fn lemma_block_overlaps_symmetric(a: Block, b: Block)
    ensures
        a.overlaps(b) == b.overlaps(a),
{
}

/// Two balls overlap whichever of them is asked.
pub proof fn lemma_ball_overlaps_symmetric(s: Ball, t: Ball)
    ensures
        s.overlaps(t) == t.overlaps(s),
{
    lemma_dist_sq_symmetric(s.center, t.center);
}

/// Colliding is symmetric for every pair of kinds: box and box, ball and
/// ball, box and ball.
pub proof fn lemma_collides_symmetric(a: Shape, b: Shape)
    ensures
        a.collides(b) == b.collides(a),
{
    match (a, b) {
        (Shape::Ball(s), Shape::Ball(t)) => {
            lemma_ball_overlaps_symmetric(s, t);
        },
        _ => {},
    }
}

/// A box overlaps itself exactly if it is valid; so every valid box does.
pub proof fn lemma_block_overlaps_itself(a: Block)
    ensures
        a.overlaps(a) == a.valid(),
{
}

/// A ball overlaps itself exactly if its radius is positive.
pub proof fn lemma_ball_overlaps_itself(s: Ball)
    ensures
        s.overlaps(s) == (s.radius > 0),
{
    let reach = s.radius + s.radius;
    assert(s.center.dist_sq(s.center) == 0);
    assert(reach > 0 ==> reach * reach > 0) by (nonlinear_arith);
}

/// The faces of a valid box belong to the box: a point of the box that is
/// moved along one axis onto either bound of that axis is still in the box.
pub proof fn lemma_block_contains_its_faces(a: Block, p: Point)
    requires
        a.valid(),
        a.contains(p),
    ensures
        a.contains(Point { x: a.min.x, ..p }),
        a.contains(Point { x: a.max.x, ..p }),
        a.contains(Point { y: a.min.y, ..p }),
        a.contains(Point { y: a.max.y, ..p }),
        a.contains(Point { z: a.min.z, ..p }),
        a.contains(Point { z: a.max.z, ..p }),
        a.contains(a.min),
        a.contains(a.max),
{
}

/// A point on the surface of a ball, at a distance of exactly the radius
/// from the center, does not belong to the ball.
pub proof fn lemma_ball_excludes_its_surface(s: Ball, p: Point)
    requires
        p.dist_sq(s.center) == s.radius * s.radius,
    ensures
        !s.contains(p),
{
}

/// Two balls that touch, their centers exactly the sum of the radii apart,
/// do not overlap.
pub proof fn lemma_touching_balls_do_not_overlap(s: Ball, t: Ball)
    requires
        s.center.dist_sq(t.center) == (s.radius + t.radius) * (s.radius + t.radius),
    ensures
        !s.overlaps(t),
{
}

/// Clamping into a range that is not empty gives the number of the range
/// that is nearest to `v`.
pub proof fn lemma_clamped_is_nearest(v: int, lo: int, hi: int, w: int)
    requires
        lo <= hi,
        lo <= w <= hi,
    ensures
        lo <= clamped(v, lo, hi) <= hi,
        (clamped(v, lo, hi) - v) * (clamped(v, lo, hi) - v) <= (w - v) * (w - v),
{
    let c = clamped(v, lo, hi);
    assert((c - v) * (c - v) <= (w - v) * (w - v)) by (nonlinear_arith)
        requires
            (v <= c <= w) || (w <= c <= v),
    ;
}

/// The closest point of a valid box belongs to the box, and no point of the
/// box is nearer to `p`.
pub proof fn lemma_closest_point_is_nearest(a: Block, p: Point, q: Point)
    requires
        a.valid(),
        a.contains(q),
    ensures
        a.contains(a.closest_point(p)),
        a.closest_point(p).dist_sq(p) <= q.dist_sq(p),
{
    lemma_clamped_is_nearest(p.x, a.min.x, a.max.x, q.x);
    lemma_clamped_is_nearest(p.y, a.min.y, a.max.y, q.y);
    lemma_clamped_is_nearest(p.z, a.min.z, a.max.z, q.z);
}

/// A valid box reaches into a ball exactly if some point of the box lies
/// inside the ball.
pub proof fn lemma_reaches_into_is_sharing_a_point(a: Block, s: Ball)
    requires
        a.valid(),
    ensures
        a.reaches_into(s) == (exists|q: Point| a.contains(q) && #[trigger] s.contains(q)),
{
    let c = a.closest_point(s.center);
    lemma_closest_point_is_nearest(a, s.center, a.min);
    if a.reaches_into(s) {
        assert(a.contains(c) && s.contains(c));
    }
    if exists|q: Point| a.contains(q) && #[trigger] s.contains(q) {
        let q = choose|q: Point| a.contains(q) && #[trigger] s.contains(q);
        lemma_closest_point_is_nearest(a, s.center, q);
    }
}

/// Two valid boxes overlap exactly if some point belongs to both.
pub proof fn lemma_overlaps_is_sharing_a_point(a: Block, b: Block)
    requires
        a.valid(),
        b.valid(),
    ensures
        a.overlaps(b) == (exists|q: Point| #[trigger] a.contains(q) && b.contains(q)),
{
    if a.overlaps(b) {
        let q = Point {
            x: if a.min.x >= b.min.x { a.min.x } else { b.min.x },
            y: if a.min.y >= b.min.y { a.min.y } else { b.min.y },
            z: if a.min.z >= b.min.z { a.min.z } else { b.min.z },
        };
        assert(a.contains(q) && b.contains(q));
    }
}

/// A collider is determined by the shape that it occupies.
pub proof fn lemma_view_determines_collider(a: ColliderEnum, b: ColliderEnum)
    requires
        a@ == b@,
    ensures
        a == b,
{
}

/// Updating a box twice with the same arguments leaves what updating it
/// once leaves.
pub proof fn lemma_aabb_update_idempotent(
    aabb: AxisAlignedBoundingBoxCollider,
    half_size: Vector3,
    center: Vector3,
)
    ensures
        aabb.updated(half_size, center).updated(half_size, center) == aabb.updated(
            half_size,
            center,
        ),
{
}

/// Updating a sphere twice with the same arguments leaves what updating it
/// once leaves.
pub proof fn lemma_sphere_update_idempotent(sphere: SphereCollider, radius: i32, center: Vector3)
    ensures
        sphere.updated(radius, center).updated(radius, center) == sphere.updated(radius, center),
{
}

/// Updating a collider of either kind twice with the same arguments leaves
/// what updating it once leaves, and the second update is allowed wherever
/// the first is.
pub proof fn lemma_update_idempotent(collider: ColliderEnum, half_size: Vector3, center: Vector3)
    ensures
        collider.updated(half_size, center).updated(half_size, center) == collider.updated(
            half_size,
            center,
        ),
        collider.updated(half_size, center).can_update(half_size, center) == collider.can_update(
            half_size,
            center,
        ),
{
}

/// Updating a set twice with the same positions leaves what updating it
/// once leaves.
pub proof fn lemma_update_all_idempotent(
    colliders: Seq<ColliderEnum>,
    positions: Seq<Vector3>,
    half_size: Vector3,
)
    ensures
        updated_all(updated_all(colliders, positions, half_size), positions, half_size)
            == updated_all(colliders, positions, half_size),
{
    let once = updated_all(colliders, positions, half_size);
    let twice = updated_all(once, positions, half_size);
    assert forall|i: int| 0 <= i < once.len() implies twice[i] == once[i] by {
        if i < positions.len() {
            lemma_update_idempotent(colliders[i], half_size, positions[i]);
        }
    }
    assert(twice =~= once);
}

/// Where exactly one pair of a set collides, the scan answers yes for the
/// two members of that pair and no for every other member.
pub proof fn lemma_scan_finds_the_only_pair(colliders: Seq<ColliderEnum>, i: int, j: int)
    requires
        0 <= i < colliders.len(),
        0 <= j < colliders.len(),
        i != j,
        colliders[i]@.collides(colliders[j]@),
        forall|a: int, b: int|
            0 <= a < colliders.len() && 0 <= b < colliders.len() && a != b && !(a == i && b == j)
                && !(a == j && b == i) ==> !(#[trigger] colliders[a])@.collides(
                (#[trigger] colliders[b])@,
            ),
    ensures
        collides_with_another(colliders, i),
        collides_with_another(colliders, j),
        forall|k: int|
            0 <= k < colliders.len() && k != i && k != j ==> !collides_with_another(colliders, k),
{
    lemma_collides_symmetric(colliders[i]@, colliders[j]@);
    assert(colliders[j]@.collides(colliders[i]@));
    assert(colliders[i]@.collides(colliders[j]@));
}

/// The scan looks at the other members only: a set of one collider has no
/// collision, whatever the collider is.
pub proof fn lemma_scan_of_one_is_empty(colliders: Seq<ColliderEnum>)
    requires
        colliders.len() == 1,
    ensures
        !collides_with_another(colliders, 0),
{
}

/// The scan does not depend on the order of the other members: it answers
/// yes exactly if one of them collides with the chosen member, asked from
/// either side.
pub proof fn lemma_scan_asks_either_side(colliders: Seq<ColliderEnum>, index: int)
    requires
        0 <= index < colliders.len(),
    ensures
        collides_with_another(colliders, index) == (exists|other: int|
            0 <= other < colliders.len() && other != index && colliders[index]@.collides(
                (#[trigger] colliders[other])@,
            )),
{
    assert forall|other: int| 0 <= other < colliders.len() implies colliders[index]@.collides(
        (#[trigger] colliders[other])@,
    ) == colliders[other]@.collides(colliders[index]@) by {
        lemma_collides_symmetric(colliders[index]@, colliders[other]@);
    }
}

} // verus!
