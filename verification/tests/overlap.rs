use hello_wgpu::collision::aabb::AxisAlignedBoundingBoxCollider;
use hello_wgpu::collision::sphere::SphereCollider;
use hello_wgpu::collision::{Collider, ColliderEnum};
use hello_wgpu::vector::Vector3;

fn cube(x: i32, y: i32, z: i32, half: i32) -> AxisAlignedBoundingBoxCollider {
    AxisAlignedBoundingBoxCollider::new(Vector3::new(half, half, half), Vector3::new(x, y, z))
}

fn ball(x: i32, y: i32, z: i32, radius: i32) -> SphereCollider {
    SphereCollider::new(radius, Vector3::new(x, y, z))
}

#[test]
fn new_box_has_corners_around_center() {
    let aabb = AxisAlignedBoundingBoxCollider::new(Vector3::new(1, 2, 3), Vector3::new(10, 20, 30));
    assert_eq!(aabb.min, Vector3 { x: 9, y: 18, z: 27 });
    assert_eq!(aabb.max, Vector3 { x: 11, y: 22, z: 33 });
}

#[test]
fn new_box_with_negative_half_size_is_inverted() {
    let aabb = AxisAlignedBoundingBoxCollider::new(Vector3::new(-1, 0, 0), Vector3::new(0, 0, 0));
    assert_eq!(aabb.min, Vector3 { x: 1, y: 0, z: 0 });
    assert_eq!(aabb.max, Vector3 { x: -1, y: 0, z: 0 });
    assert!(!aabb.is_aabb_colliding(&aabb));
    assert!(!aabb.is_point_colliding(&Vector3::new(0, 0, 0)));
}

#[test]
fn new_sphere_keeps_radius_and_center() {
    let sphere = SphereCollider::new(7, Vector3::new(1, -2, 3));
    assert_eq!(sphere.radius, 7);
    assert_eq!(sphere.center, Vector3 { x: 1, y: -2, z: 3 });
}

#[test]
fn overlapping_boxes_collide() {
    let a = cube(0, 0, 0, 3);
    let b = cube(5, 0, 0, 3);
    assert_eq!(a.min, Vector3::new(-3, -3, -3));
    assert_eq!(a.max, Vector3::new(3, 3, 3));
    assert_eq!(b.min, Vector3::new(2, -3, -3));
    assert_eq!(b.max, Vector3::new(8, 3, 3));
    assert!(a.is_aabb_colliding(&b));
}

#[test]
fn separated_boxes_do_not_collide() {
    let a = cube(0, 0, 0, 3);
    let b = cube(7, 0, 0, 3);
    assert_eq!(b.min, Vector3::new(4, -3, -3));
    assert_eq!(b.max, Vector3::new(10, 3, 3));
    assert!(!a.is_aabb_colliding(&b));
}

#[test]
fn touching_boxes_collide() {
    let a = cube(0, 0, 0, 3);
    let b = cube(6, 0, 0, 3);
    assert!(a.is_aabb_colliding(&b));
    assert!(b.is_aabb_colliding(&a));
    let corner = cube(6, 6, 6, 3);
    assert!(a.is_aabb_colliding(&corner));
    let past_corner = cube(6, 6, 7, 3);
    assert!(!a.is_aabb_colliding(&past_corner));
}

#[test]
fn boxes_must_overlap_on_every_axis() {
    let a = cube(0, 0, 0, 3);
    assert!(!a.is_aabb_colliding(&cube(0, 7, 0, 3)));
    assert!(!a.is_aabb_colliding(&cube(0, 0, 7, 3)));
    assert!(!a.is_aabb_colliding(&cube(0, 0, -7, 3)));
    assert!(a.is_aabb_colliding(&cube(1, -2, 4, 3)));
}

#[test]
fn overlapping_spheres_collide() {
    let s = ball(0, 0, 0, 3);
    let t = ball(5, 0, 0, 3);
    assert!(s.is_sphere_colliding(&t));
}

#[test]
fn touching_spheres_do_not_collide() {
    let s = ball(0, 0, 0, 3);
    let t = ball(6, 0, 0, 3);
    assert!(!s.is_sphere_colliding(&t));
    assert!(!t.is_sphere_colliding(&s));
}

#[test]
fn spheres_collide_by_euclidean_distance() {
    // The centers are sqrt(9 + 16 + 144) = 13 apart.
    let s = ball(0, 0, 0, 6);
    assert!(!s.is_sphere_colliding(&ball(3, 4, 12, 7)));
    assert!(s.is_sphere_colliding(&ball(3, 4, 12, 8)));
    // sqrt(50) lies between 7 and 8.
    assert!(!s.is_sphere_colliding(&ball(5, 5, 0, 1)));
    assert!(s.is_sphere_colliding(&ball(5, 5, 0, 2)));
}

#[test]
fn box_touching_sphere_does_not_collide() {
    let aabb = AxisAlignedBoundingBoxCollider {
        min: Vector3::new(-1, -1, -1),
        max: Vector3::new(1, 1, 1),
    };
    let sphere = ball(2, 0, 0, 1);
    assert_eq!(aabb.closest_point(&sphere.center), Vector3::new(1, 0, 0));
    assert!(!aabb.is_sphere_colliding(&sphere));
    assert!(!sphere.is_aabb_colliding(&aabb));
}

#[test]
fn box_and_sphere_collide_when_sphere_reaches_inside() {
    let aabb = cube(0, 0, 0, 1);
    let sphere = ball(2, 0, 0, 2);
    assert!(aabb.is_sphere_colliding(&sphere));
    assert!(sphere.is_aabb_colliding(&aabb));
}

#[test]
fn box_and_sphere_near_a_corner() {
    let aabb = cube(0, 0, 0, 1);
    // The corner (1, 1, 1) is sqrt(12) from (3, 3, 3): between 3 and 4.
    assert!(!aabb.is_sphere_colliding(&ball(3, 3, 3, 3)));
    assert!(aabb.is_sphere_colliding(&ball(3, 3, 3, 4)));
    assert!(!ball(3, 3, 3, 3).is_aabb_colliding(&aabb));
    assert!(ball(3, 3, 3, 4).is_aabb_colliding(&aabb));
}

#[test]
fn sphere_with_center_inside_box_collides() {
    let aabb = cube(0, 0, 0, 5);
    let sphere = ball(1, 2, 3, 1);
    assert_eq!(aabb.closest_point(&sphere.center), sphere.center);
    assert!(aabb.is_sphere_colliding(&sphere));
    assert!(sphere.is_aabb_colliding(&aabb));
}

#[test]
fn closest_point_clamps_each_axis() {
    let aabb = AxisAlignedBoundingBoxCollider {
        min: Vector3::new(-1, 0, 10),
        max: Vector3::new(1, 5, 20),
    };
    assert_eq!(aabb.closest_point(&Vector3::new(-7, 3, 25)), Vector3::new(-1, 3, 20));
    assert_eq!(aabb.closest_point(&Vector3::new(0, 9, 0)), Vector3::new(0, 5, 10));
}

#[test]
fn closest_point_of_inverted_box_is_its_min() {
    let aabb = AxisAlignedBoundingBoxCollider {
        min: Vector3::new(4, 4, 4),
        max: Vector3::new(2, 2, 2),
    };
    assert_eq!(aabb.closest_point(&Vector3::new(0, 3, 9)), Vector3::new(4, 4, 4));
}

#[test]
fn point_in_box_is_inclusive() {
    let aabb = cube(0, 0, 0, 3);
    assert!(aabb.is_point_colliding(&Vector3::new(0, 0, 0)));
    assert!(aabb.is_point_colliding(&Vector3::new(3, 0, 0)));
    assert!(aabb.is_point_colliding(&Vector3::new(-3, 1, 2)));
    assert!(aabb.is_point_colliding(&Vector3::new(1, 3, -2)));
    assert!(aabb.is_point_colliding(&Vector3::new(1, 2, -3)));
    assert!(aabb.is_point_colliding(&Vector3::new(3, 3, 3)));
    assert!(aabb.is_point_colliding(&Vector3::new(-3, -3, -3)));
    assert!(!aabb.is_point_colliding(&Vector3::new(4, 0, 0)));
    assert!(!aabb.is_point_colliding(&Vector3::new(0, -4, 0)));
    assert!(!aabb.is_point_colliding(&Vector3::new(0, 0, 4)));
}

#[test]
fn point_in_sphere_is_exclusive() {
    let sphere = ball(0, 0, 0, 5);
    assert!(sphere.is_point_colliding(&Vector3::new(0, 0, 0)));
    assert!(sphere.is_point_colliding(&Vector3::new(4, 0, 0)));
    assert!(!sphere.is_point_colliding(&Vector3::new(5, 0, 0)));
    // (3, 4, 0) is exactly 5 from the center.
    assert!(!sphere.is_point_colliding(&Vector3::new(3, 4, 0)));
    assert!(sphere.is_point_colliding(&Vector3::new(3, 3, 2)));
    assert!(!sphere.is_point_colliding(&Vector3::new(3, 4, 1)));
}

#[test]
fn box_collides_with_itself() {
    let aabb = cube(4, -9, 2, 3);
    assert!(aabb.is_aabb_colliding(&aabb));
    let flat = cube(1, 1, 1, 0);
    assert!(flat.is_aabb_colliding(&flat));
}

#[test]
fn sphere_collides_with_itself_only_with_positive_radius() {
    let sphere = ball(1, 2, 3, 1);
    assert!(sphere.is_sphere_colliding(&sphere));
    let dot = ball(1, 2, 3, 0);
    assert!(!dot.is_sphere_colliding(&dot));
    assert!(!dot.is_point_colliding(&dot.center));
}

#[test]
fn sphere_with_negative_radius() {
    let hollow = ball(0, 0, 0, -2);
    assert!(!hollow.is_point_colliding(&Vector3::new(0, 0, 0)));
    assert!(!hollow.is_sphere_colliding(&hollow));
    assert!(!hollow.is_sphere_colliding(&ball(0, 0, 0, 1)));
    assert!(!hollow.is_sphere_colliding(&ball(0, 0, 0, 2)));
    assert!(!hollow.is_aabb_colliding(&cube(0, 0, 0, 3)));
    assert!(!cube(0, 0, 0, 3).is_sphere_colliding(&hollow));
    // The sum of the radii decides: 3 - 2 = 1 reaches the same center.
    assert!(hollow.is_sphere_colliding(&ball(0, 0, 0, 3)));
}

#[test]
fn tests_are_symmetric() {
    let boxes = [cube(0, 0, 0, 3), cube(5, 1, -2, 2), cube(-8, 0, 0, 3), cube(6, 6, 6, 3)];
    let balls = [ball(0, 0, 0, 3), ball(5, 0, 0, 3), ball(6, 0, 0, 3), ball(4, 4, 4, 2), ball(0, 9, 0, -1)];
    for a in boxes.iter() {
        for b in boxes.iter() {
            assert_eq!(a.is_aabb_colliding(b), b.is_aabb_colliding(a));
        }
        for s in balls.iter() {
            assert_eq!(a.is_sphere_colliding(s), s.is_aabb_colliding(a));
        }
    }
    for s in balls.iter() {
        for t in balls.iter() {
            assert_eq!(s.is_sphere_colliding(t), t.is_sphere_colliding(s));
        }
    }
}

#[test]
fn is_colliding_with_picks_the_test_by_kind() {
    let a = cube(0, 0, 0, 3);
    let s = ball(0, 0, 0, 3);
    let near_box = ColliderEnum::AABB(cube(5, 0, 0, 3));
    let far_box = ColliderEnum::AABB(cube(7, 0, 0, 3));
    let near_ball = ColliderEnum::Sphere(ball(5, 0, 0, 3));
    let far_ball = ColliderEnum::Sphere(ball(6, 0, 0, 3));
    assert!(a.is_colliding_with(&near_box));
    assert!(!a.is_colliding_with(&far_box));
    assert!(a.is_colliding_with(&near_ball));
    assert!(!a.is_colliding_with(&far_ball));
    assert!(s.is_colliding_with(&near_box));
    assert!(!s.is_colliding_with(&far_box));
    assert!(s.is_colliding_with(&near_ball));
    assert!(!s.is_colliding_with(&far_ball));
}

#[test]
fn distance_squared_is_exact() {
    let origin = Vector3::new(0, 0, 0);
    assert_eq!(origin.distance_squared(&Vector3::new(1, 2, 3)), 14);
    assert_eq!(Vector3::new(1, 2, 3).distance_squared(&origin), 14);
    assert_eq!(Vector3::new(-4, 7, 2).distance_squared(&Vector3::new(-4, 7, 2)), 0);
    assert_eq!(Vector3::new(2, 0, 0).distance_squared(&Vector3::new(-1, 4, 0)), 25);
}

#[test]
fn distance_squared_at_the_limits() {
    let low = Vector3::new(i32::MIN, i32::MIN, i32::MIN);
    let high = Vector3::new(i32::MAX, i32::MAX, i32::MAX);
    let side: i128 = (1i128 << 32) - 1;
    assert_eq!(low.distance_squared(&high), 3 * side * side);
    assert_eq!(high.distance_squared(&low), 3 * side * side);
}

#[test]
fn tests_at_the_limits() {
    let whole = AxisAlignedBoundingBoxCollider {
        min: Vector3::new(i32::MIN, i32::MIN, i32::MIN),
        max: Vector3::new(i32::MAX, i32::MAX, i32::MAX),
    };
    assert!(whole.is_aabb_colliding(&whole));
    assert!(whole.is_point_colliding(&Vector3::new(i32::MAX, 0, i32::MIN)));
    let far = SphereCollider::new(i32::MAX, Vector3::new(i32::MAX, i32::MAX, i32::MAX));
    let other = SphereCollider::new(i32::MAX, Vector3::new(i32::MIN, i32::MIN, i32::MIN));
    assert!(!far.is_sphere_colliding(&other));
    assert!(far.is_sphere_colliding(&far));
    assert!(whole.is_sphere_colliding(&far));
    let thin = AxisAlignedBoundingBoxCollider {
        min: Vector3::new(i32::MIN, i32::MIN, i32::MIN),
        max: Vector3::new(i32::MIN, i32::MIN, i32::MIN),
    };
    assert!(!thin.is_sphere_colliding(&far));
    assert!(!far.is_aabb_colliding(&thin));
}

#[test]
fn fits_tells_whether_the_corners_can_be_stored() {
    let center = Vector3::new(i32::MAX - 3, 0, i32::MIN + 3);
    assert!(AxisAlignedBoundingBoxCollider::fits(Vector3::new(3, 3, 3), center));
    assert!(!AxisAlignedBoundingBoxCollider::fits(Vector3::new(4, 3, 3), center));
    assert!(!AxisAlignedBoundingBoxCollider::fits(Vector3::new(3, 3, 4), center));
    assert!(AxisAlignedBoundingBoxCollider::fits(Vector3::new(3, i32::MAX, 3), center));
    assert!(!AxisAlignedBoundingBoxCollider::fits(Vector3::new(3, i32::MIN, 3), center));
    assert!(!AxisAlignedBoundingBoxCollider::fits(Vector3::new(-4, 0, 0), center));
    let aabb = AxisAlignedBoundingBoxCollider::new(Vector3::new(3, 3, 3), center);
    assert_eq!(aabb.max.x, i32::MAX);
    assert_eq!(aabb.min.z, i32::MIN);
}
