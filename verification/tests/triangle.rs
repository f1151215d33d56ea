use rtrace::geometry::mesh::{assemble, FaceError, Mesh, Triangle};
use rtrace::geometry::quaternion::Quaternion;
use rtrace::geometry::ray::Ray;
use rtrace::geometry::vec3::Vec3;

const ONE: i32 = 65_536;

fn units(v: f64) -> i32 {
    (v * ONE as f64).round() as i32
}

fn point(x: f64, y: f64, z: f64) -> Vec3 {
    Vec3::new(units(x), units(y), units(z))
}

fn ray(origin: Vec3, direction: Vec3) -> Ray {
    Ray::new(origin, direction, 1_000, ONE as u32)
}

fn floor_at(height: f64) -> Triangle {
    Triangle::new(
        point(-1.0, height, -1.0),
        point(1.0, height, -1.0),
        point(0.0, height, 1.0),
    )
}

#[test]
fn triangle_intersection_1() {
    let s = Triangle::new(point(-1.0, 0.0, -1.0), point(1.0, 0.0, -1.0), point(0.0, 0.0, 1.0));
    println!("{:?}", s.normal);
    let r = ray(point(0.0, -1.0, 0.0), point(0.0, 1.0, 0.0));
    let i = s.intersect(&r);
    match i {
        None => assert!(false),
        Some(hit) => assert_eq!(hit.position, point(0.0, 0.0, 0.0)),
    }
}

#[test]
fn triangle_intersection_2() {
    let s = Triangle::new(point(-1.0, 0.0, -1.0), point(1.0, 0.0, -1.0), point(0.0, 0.0, 1.0));
    println!("{:?}", s.normal);
    let r = ray(point(0.0, -1.0, 0.0), point(0.0, -1.0, 0.0));
    let i = s.intersect(&r);
    match i {
        None => assert!(true),
        Some(_hit) => assert!(false),
    }
}

#[test]
fn triangle_intersection_3() {
    let s = Triangle::new(point(-1.0, 0.0, -1.0), point(1.0, 0.0, -1.0), point(0.0, 0.0, 1.0));
    println!("{:?}", s.normal);
    let r = ray(point(1.0, -1.0, 1.0), point(0.0, 1.0, 0.0));
    let i = s.intersect(&r);
    match i {
        None => assert!(true),
        Some(_hit) => assert!(false),
    }
}

#[test]
fn triangle_normal_is_of_unit_length_and_faces_the_ray() {
    let s = floor_at(0.0);
    assert_eq!(s.normal, point(0.0, -1.0, 0.0));
    let from_below = s.intersect(&ray(point(0.0, -1.0, 0.0), point(0.0, 1.0, 0.0))).unwrap();
    assert_eq!(from_below.normal, point(0.0, -1.0, 0.0));
    assert_eq!(from_below.distance_squared, (ONE as u128) * (ONE as u128));
    let from_above = s.intersect(&ray(point(0.0, 1.0, 0.0), point(0.0, -1.0, 0.0))).unwrap();
    assert_eq!(from_above.normal, point(0.0, 1.0, 0.0));
    assert_eq!(from_above.position, point(0.0, 0.0, 0.0));
}

#[test]
fn triangle_edges_count_and_a_ray_along_the_plane_misses() {
    let s = floor_at(0.0);
    assert!(s.intersect(&ray(point(-1.0, -1.0, -1.0), point(0.0, 1.0, 0.0))).is_some());
    assert!(s.intersect(&ray(point(0.0, -1.0, 1.0), point(0.0, 1.0, 0.0))).is_some());
    assert!(s.intersect(&ray(point(-5.0, 0.0, 0.0), point(1.0, 0.0, 0.0))).is_none());
    let line = Triangle::new(point(0.0, 0.0, 0.0), point(1.0, 0.0, 0.0), point(2.0, 0.0, 0.0));
    assert_eq!(line.normal, point(0.0, 0.0, 0.0));
    assert!(line.intersect(&ray(point(0.5, -1.0, 0.0), point(0.0, 1.0, 0.0))).is_none());
}

#[test]
fn mesh_keeps_the_nearest_hit() {
    let mesh = Mesh::new(vec![floor_at(3.0), floor_at(1.0), floor_at(2.0), floor_at(1.0)]);
    let r = ray(point(0.0, -1.0, 0.0), point(0.0, 1.0, 0.0));
    let hit = mesh.intersect(&r).unwrap();
    assert_eq!(hit.position, point(0.0, 1.0, 0.0));
    assert_eq!(hit.distance_squared, (2 * ONE as u128) * (2 * ONE as u128));
    assert!(mesh.intersect(&ray(point(0.0, 5.0, 0.0), point(0.0, 1.0, 0.0))).is_none());
    assert!(Mesh::new(vec![]).intersect(&r).is_none());
}

#[test]
fn mesh_tries_only_the_listed_triangles() {
    let mesh = Mesh::new(vec![floor_at(3.0), floor_at(1.0), floor_at(2.0)]);
    let r = ray(point(0.0, -1.0, 0.0), point(0.0, 1.0, 0.0));
    assert_eq!(mesh.intersect_among(&r, &vec![0, 2]).unwrap().position, point(0.0, 2.0, 0.0));
    assert_eq!(mesh.intersect_among(&r, &vec![0]).unwrap().position, point(0.0, 3.0, 0.0));
    assert_eq!(mesh.intersect_among(&r, &vec![2, 1, 0]), mesh.intersect(&r));
    assert!(mesh.intersect_among(&r, &vec![]).is_none());
    assert!(mesh.intersect_among(&r, &vec![7, 3]).is_none());
}

#[test]
fn mesh_has_a_bounding_box_and_a_centre() {
    let mesh = Mesh::new(vec![floor_at(3.0), floor_at(1.0)]);
    assert_eq!(mesh.aabb(), (point(-1.0, 1.0, -1.0), point(1.0, 3.0, 1.0)));
    assert_eq!(mesh.get_center(), point(0.0, 2.0, 0.0));
    assert_eq!(mesh.len(), 2);
    assert_eq!(mesh.triangle(1), Some(floor_at(1.0)));
    assert_eq!(mesh.triangle(2), None);
    let empty = Mesh::new(vec![]);
    assert_eq!(
        empty.aabb(),
        (Vec3::new(i32::MAX, i32::MAX, i32::MAX), Vec3::new(i32::MIN, i32::MIN, i32::MIN))
    );
    assert_eq!(empty.get_center(), Vec3::new(-1, -1, -1));
}

#[test]
fn mesh_is_moved_scaled_and_turned_by_building_it_anew() {
    let mesh = Mesh::new(vec![floor_at(1.0)]);
    let moved = mesh.translate(point(0.0, 2.0, 5.0));
    assert_eq!(
        moved.triangle(0),
        Some(Triangle::new(point(-1.0, 3.0, 4.0), point(1.0, 3.0, 4.0), point(0.0, 3.0, 6.0)))
    );
    assert_eq!(moved.get_center(), point(0.0, 3.0, 5.0));
    let scaled = moved.scale(units(2.0));
    assert_eq!(
        scaled.triangle(0),
        Some(Triangle::new(point(-2.0, 0.0, -2.0), point(2.0, 0.0, -2.0), point(0.0, 0.0, 2.0)))
    );
    let half_turn_about_y = Quaternion::new(0, ONE, 0, 0);
    let turned = Mesh::new(vec![floor_at(1.0)]).translate(point(4.0, 0.0, 0.0)).rotate(half_turn_about_y);
    assert_eq!(
        turned.triangle(0),
        Some(Triangle::new(point(5.0, 1.0, 1.0), point(3.0, 1.0, 1.0), point(4.0, 1.0, -1.0)))
    );
}

#[test]
fn triangle_hit_is_found_again_from_a_step_back() {
    let s = floor_at(0.0);
    let direction = point(0.0, 1.0, 0.0);
    let first = s.intersect(&ray(point(0.25, -3.0, -0.5), direction)).unwrap();
    assert_eq!(first.position, point(0.25, 0.0, -0.5));
    let back = first.position.subtract(&direction.scale(units(0.125)));
    let second = s.intersect(&ray(back, direction)).unwrap();
    assert_eq!(second.position, first.position);
    let eighth = (ONE / 8) as u128;
    assert_eq!(second.distance_squared, eighth * eighth);
}

#[test]
fn faces_are_assembled_into_triangles() {
    let vertices = vec![point(-1.0, 0.0, -1.0), point(1.0, 0.0, -1.0), point(0.0, 0.0, 1.0), point(0.0, 2.0, 0.0)];
    let faces = vec![vec![0, 1, 2], vec![2, 1, 3]];
    assert_eq!(
        assemble(&vertices, &faces),
        Ok(vec![floor_at(0.0), Triangle::new(vertices[2], vertices[1], vertices[3])])
    );
    assert_eq!(assemble(&vertices, &vec![]), Ok(vec![]));
    assert_eq!(assemble(&vec![], &vec![]), Ok(vec![]));
}

#[test]
fn faces_that_cannot_be_triangles_are_reported() {
    let vertices = vec![point(-1.0, 0.0, -1.0), point(1.0, 0.0, -1.0), point(0.0, 0.0, 1.0)];
    let square = vec![vec![0, 1, 2], vec![0, 1, 2, 0]];
    assert_eq!(assemble(&vertices, &square), Err(FaceError::NotTriangular { face: 1 }));
    let line = vec![vec![0, 1]];
    assert_eq!(assemble(&vertices, &line), Err(FaceError::NotTriangular { face: 0 }));
    let beyond = vec![vec![0, 1, 2], vec![2, 1, 0], vec![0, 3, 1], vec![0, 1]];
    assert_eq!(assemble(&vertices, &beyond), Err(FaceError::NoSuchVertex { face: 2 }));
    let below = vec![vec![0, -1, 2]];
    assert_eq!(assemble(&vertices, &below), Err(FaceError::NoSuchVertex { face: 0 }));
    let both = vec![vec![7, 8, 9, 10]];
    assert_eq!(assemble(&vertices, &both), Err(FaceError::NotTriangular { face: 0 }));
}
