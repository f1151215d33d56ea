use rtrace::geometry::circle::Circle;
use rtrace::geometry::plane::Plane;
use rtrace::geometry::ray::{Ray, REACH};
use rtrace::geometry::vec3::Vec3;

const ONE: i32 = 65_536;

fn units(v: f64) -> i32 {
    (v * ONE as f64).round() as i32
}

fn point(x: f64, y: f64, z: f64) -> Vec3 {
    Vec3::new(units(x), units(y), units(z))
}

fn ray(origin: Vec3, direction: Vec3) -> Ray {
    Ray::new(origin, direction, 1_000, ONE as u32)
}

#[test]
fn plane_is_hit_where_the_ray_crosses_it() {
    let wall = Plane::new(point(0.0, 5.5, 0.0), point(0.0, 1.0, 0.0));
    let hit = wall.intersect(&ray(point(1.0, -9.0, 2.0), point(0.0, 1.0, 0.0))).unwrap();
    assert_eq!(hit.position, point(1.0, 5.5, 2.0));
    let t = units(14.5) as u128;
    assert_eq!(hit.distance_squared, t * t);
    assert_eq!(hit.normal, point(0.0, -1.0, 0.0));
    assert_eq!(hit.tangent, point(0.0, 0.0, 0.0));
}

#[test]
fn plane_normal_turns_to_face_the_ray() {
    let wall = Plane::new(point(0.0, 0.0, 0.0), point(0.0, 1.0, 0.0));
    let from_above = wall.intersect(&ray(point(0.0, 3.0, 0.0), point(0.6, -0.8, 0.0))).unwrap();
    assert_eq!(from_above.normal, point(0.0, 1.0, 0.0));
    assert_eq!(from_above.position.y, 0);
    let from_below = wall.intersect(&ray(point(0.0, -3.0, 0.0), point(0.6, 0.8, 0.0))).unwrap();
    assert_eq!(from_below.normal, point(0.0, -1.0, 0.0));
}

#[test]
fn plane_behind_or_alongside_the_ray_is_missed() {
    let wall = Plane::new(point(0.0, 5.0, 0.0), point(0.0, 1.0, 0.0));
    assert!(wall.intersect(&ray(point(0.0, 6.0, 0.0), point(0.0, 1.0, 0.0))).is_none());
    assert!(wall.intersect(&ray(point(0.0, 0.0, 0.0), point(1.0, 0.0, 0.0))).is_none());
    assert!(wall.intersect(&ray(point(0.0, 5.0, 0.0), point(0.0, 1.0, 0.0))).is_none());
}

#[test]
fn plane_beyond_reach_is_missed() {
    let wall = Plane::new(point(0.0, 30000.0, 0.0), point(0.0, 1.0, 0.0));
    let crawling = Ray::new(point(0.0, -30000.0, 0.0), Vec3::new(0, 1, 0), 1_000, ONE as u32);
    assert!(60_000 * (ONE as u64) * (ONE as u64) > REACH);
    assert!(wall.intersect(&crawling).is_none());
    assert!(wall.intersect(&ray(point(0.0, -30000.0, 0.0), point(0.0, 1.0, 0.0))).is_some());
}

#[test]
fn disc_is_hit_within_its_radius_only() {
    let disc = Circle::new(point(0.0, 10.0, 0.0), point(0.0, 1.0, 0.0), units(5.0));
    assert_eq!(disc.radius_squared, 25 * (ONE as u64) * (ONE as u64));
    let inside = disc.intersect(&ray(point(3.0, 0.0, 4.0), point(0.0, 1.0, 0.0))).unwrap();
    assert_eq!(inside.position, point(3.0, 10.0, 4.0));
    assert_eq!(inside.normal, point(0.0, -1.0, 0.0));
    let t = units(10.0) as u128;
    assert_eq!(inside.distance_squared, t * t);
    assert!(disc.intersect(&ray(point(3.0, 0.0, 4.1), point(0.0, 1.0, 0.0))).is_none());
    assert!(disc.intersect(&ray(point(0.0, 11.0, 0.0), point(0.0, 1.0, 0.0))).is_none());
    assert!(disc.intersect(&ray(point(0.0, 0.0, 0.0), point(1.0, 0.0, 0.0))).is_none());
}

#[test]
fn plane_and_disc_hits_are_found_again_from_a_step_back() {
    let direction = point(0.0, 1.0, 0.0);
    let wall = Plane::new(point(0.0, 5.5, 0.0), point(0.0, 1.0, 0.0));
    let first = wall.intersect(&ray(point(1.0, -9.0, 2.0), direction)).unwrap();
    let back = first.position.subtract(&direction.scale(units(0.25)));
    let second = wall.intersect(&ray(back, direction)).unwrap();
    assert_eq!(second.position, first.position);
    let quarter = (ONE / 4) as u128;
    assert_eq!(second.distance_squared, quarter * quarter);
    let disc = Circle::new(point(0.0, 10.0, 0.0), point(0.0, 1.0, 0.0), units(5.0));
    let first = disc.intersect(&ray(point(3.0, 0.0, 4.0), direction)).unwrap();
    let back = first.position.subtract(&direction.scale(units(0.25)));
    let second = disc.intersect(&ray(back, direction)).unwrap();
    assert_eq!(second.position, first.position);
    assert_eq!(second.distance_squared, quarter * quarter);
}
