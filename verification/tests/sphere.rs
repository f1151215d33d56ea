use rtrace::geometry::intersection::Intersection;
use rtrace::geometry::ray::Ray;
use rtrace::geometry::sphere::Sphere;
use rtrace::geometry::vec3::Vec3;

const ONE: i32 = 65_536;

fn units(v: f64) -> i32 {
    (v * ONE as f64).round() as i32
}

fn point(x: f64, y: f64, z: f64) -> Vec3 {
    Vec3::new(units(x), units(y), units(z))
}

fn ray(origin: Vec3, direction: Vec3) -> Ray {
    Ray::new(origin, direction, 1_000, ONE as u32)
}

fn hit_of(found: Option<Intersection>) -> Intersection {
    match found {
        Some(hit) => hit,
        None => panic!("the ray should have hit"),
    }
}

#[test]
fn sphere_intersection_center_pos_y() {
    let s = Sphere::new(point(0.0, 0.0, 0.0), units(1.0));
    let r = ray(point(0.0, -5.0, 0.0), point(0.0, 1.0, 0.0));
    let i = s.intersect(&r);
    match i {
        None => assert!(false),
        Some(hit) => assert_eq!(hit.position, point(0.0, -1.0, 0.0)),
    }
}

#[test]
fn sphere_intersection_center_neg_y() {
    let s = Sphere::new(point(0.0, 0.0, 0.0), units(1.0));
    let r = ray(point(0.0, 5.0, 0.0), point(0.0, -1.0, 0.0));
    let i = s.intersect(&r);
    match i {
        None => assert!(false),
        Some(hit) => assert_eq!(hit.position, point(0.0, 1.0, 0.0)),
    }
}

#[test]
fn sphere_intersection_center_pos_x() {
    let s = Sphere::new(point(0.0, 0.0, 0.0), units(1.0));
    let r = ray(point(-5.0, 0.0, 0.0), point(1.0, 0.0, 0.0));
    let i = s.intersect(&r);
    match i {
        None => assert!(false),
        Some(hit) => assert_eq!(hit.position, point(-1.0, 0.0, 0.0)),
    }
}

#[test]
fn sphere_intersection_center_neg_x() {
    let s = Sphere::new(point(0.0, 0.0, 0.0), units(1.0));
    let r = ray(point(5.0, 0.0, 0.0), point(-1.0, 0.0, 0.0));
    let i = s.intersect(&r);
    match i {
        None => assert!(false),
        Some(hit) => assert_eq!(hit.position, point(1.0, 0.0, 0.0)),
    }
}

#[test]
fn sphere_intersection_center_pos_z() {
    let s = Sphere::new(point(0.0, 0.0, 0.0), units(1.0));
    let r = ray(point(0.0, 0.0, -5.0), point(0.0, 0.0, 1.0));
    let i = s.intersect(&r);
    match i {
        None => assert!(false),
        Some(hit) => assert_eq!(hit.position, point(0.0, 0.0, -1.0)),
    }
}

#[test]
fn sphere_intersection_center_neg_z() {
    let s = Sphere::new(point(0.0, 0.0, 0.0), units(1.0));
    let r = ray(point(0.0, 0.0, 5.0), point(0.0, 0.0, -1.0));
    let i = s.intersect(&r);
    match i {
        None => assert!(false),
        Some(hit) => assert_eq!(hit.position, point(0.0, 0.0, 1.0)),
    }
}

#[test]
fn sphere_intersection_center_large_radius() {
    let s = Sphere::new(point(0.0, 0.0, 0.0), units(1000.0));
    let r = ray(point(-10000.0, 0.0, 0.0), point(1.0, 0.0, 0.0));
    let i = s.intersect(&r);
    match i {
        None => assert!(false),
        Some(hit) => assert_eq!(hit.position, point(-1000.0, 0.0, 0.0)),
    }
}

#[test]
fn sphere_miss_x_axis() {
    let s = Sphere::new(point(0.0, 0.0, 0.0), units(10.0));
    let r = ray(point(10.1, -5.0, 0.0), point(0.0, 1.0, 0.0));
    let i = s.intersect(&r);
    match i {
        None => assert!(true),
        Some(_hit) => assert!(false),
    }
}

#[test]
fn sphere_hit_carries_distance_normal_and_tangent() {
    let s = Sphere::new(point(0.0, 0.0, 0.0), units(1.0));
    let hit = hit_of(s.intersect(&ray(point(0.0, -5.0, 0.0), point(0.0, 1.0, 0.0))));
    let four = 4 * ONE as u128;
    assert_eq!(hit.distance_squared, four * four);
    assert_eq!(hit.normal, point(0.0, -1.0, 0.0));
    assert_eq!(hit.tangent, point(0.0, 0.0, 0.0));
    let side = hit_of(s.intersect(&ray(point(-5.0, 0.0, 0.0), point(1.0, 0.0, 0.0))));
    assert_eq!(side.normal, point(-1.0, 0.0, 0.0));
    assert_eq!(side.tangent, point(0.0, 0.0, 1.0));
}

#[test]
fn sphere_hit_lies_on_the_ray_at_its_distance() {
    let s = Sphere::new(point(1.0, 2.0, 3.0), units(2.5));
    let direction = point(0.6, 0.0, 0.8);
    let r = ray(point(-5.0, 2.0, -5.0), direction);
    let hit = hit_of(s.intersect(&r));
    let t = (hit.distance_squared as f64).sqrt().round() as i64;
    assert!(t > 0);
    assert_eq!(t as u128 * t as u128, hit.distance_squared);
    assert_eq!(hit.position, r.point_at(t as u64));
    let from_centre = hit.position.subtract(&s.position).length() as i64;
    assert!((from_centre - units(2.5) as i64).abs() <= 4);
}

#[test]
fn sphere_is_hit_from_inside_at_its_far_side() {
    let s = Sphere::new(point(0.0, 0.0, 0.0), units(1.0));
    let hit = hit_of(s.intersect(&ray(point(0.0, 0.0, 0.0), point(0.0, 1.0, 0.0))));
    assert_eq!(hit.position, point(0.0, 1.0, 0.0));
    assert_eq!(hit.distance_squared, (ONE as u128) * (ONE as u128));
    assert_eq!(hit.normal, point(0.0, -1.0, 0.0));
    let off_centre = hit_of(s.intersect(&ray(point(0.5, 0.0, 0.0), point(-1.0, 0.0, 0.0))));
    assert_eq!(off_centre.position, point(-1.0, 0.0, 0.0));
    let t = units(1.5) as u128;
    assert_eq!(off_centre.distance_squared, t * t);
    assert_eq!(off_centre.normal, point(1.0, 0.0, 0.0));
    let on_the_skin = hit_of(s.intersect(&ray(point(0.0, -1.0, 0.0), point(0.0, 1.0, 0.0))));
    assert_eq!(on_the_skin.position, point(0.0, 1.0, 0.0));
    let big = Sphere::new(point(1.0, 2.0, 3.0), units(2.5));
    let slanted = ray(point(1.0, 2.5, 2.0), point(0.6, 0.0, 0.8));
    let within = hit_of(big.intersect(&slanted));
    let from_centre = within.position.subtract(&big.position).length() as i64;
    assert!((from_centre - units(2.5) as i64).abs() <= 4);
    assert!(within.normal.dot(&slanted.direction) <= 0);
}

#[test]
fn sphere_behind_the_ray_is_not_hit() {
    let s = Sphere::new(point(0.0, 0.0, 0.0), units(1.0));
    assert!(s.intersect(&ray(point(0.0, 5.0, 0.0), point(0.0, 1.0, 0.0))).is_none());
    assert!(s.intersect(&ray(point(0.0, 1.0, 0.0), point(0.0, 1.0, 0.0))).is_none());
    assert!(s.intersect(&ray(point(0.0, -5.0, 0.0), point(0.0, 0.0, 0.0))).is_none());
}

#[test]
fn sphere_hit_is_found_again_from_a_step_back() {
    let s = Sphere::new(point(0.0, 0.0, 0.0), units(1.0));
    let direction = point(0.0, 1.0, 0.0);
    let first = hit_of(s.intersect(&ray(point(0.0, -5.0, 0.0), direction)));
    let back = first.position.subtract(&direction.scale(units(0.5)));
    let second = hit_of(s.intersect(&ray(back, direction)));
    assert_eq!(second.position, first.position);
    let half = (ONE / 2) as u128;
    assert_eq!(second.distance_squared, half * half);
}

#[test]
fn sphere_keeps_the_square_of_its_radius() {
    let s = Sphere::new(point(0.0, 0.0, 0.0), units(-3.0));
    assert_eq!(s.radius, units(-3.0));
    assert_eq!(s.radius_squared, 9 * (ONE as u64) * (ONE as u64));
}
