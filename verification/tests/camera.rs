use rtrace::geometry::quaternion::Quaternion;
use rtrace::geometry::ray::Ray;
use rtrace::geometry::vec3::Vec3;
use rtrace::scene::Camera;

const ONE: i32 = 65_536;

fn pinhole(chromatic_aberration: i32) -> Camera {
    Camera::new(
        Vec3::new(0, -5 * ONE, 0),
        Quaternion::new(0, 0, 0, ONE),
        ONE,
        4 * ONE,
        i32::MAX,
        chromatic_aberration,
    )
}

#[test]
fn camera_looks_straight_ahead_through_the_middle_of_the_screen() {
    let ray = pinhole(0).get_ray(0, 0, 580_000, 0, 0);
    assert_eq!(ray, Ray::new(Vec3::new(0, -5 * ONE, 0), Vec3::new(0, ONE, 0), 580_000, ONE as u32));
}

#[test]
fn camera_looks_to_the_right_and_up_for_the_upper_right_of_the_screen() {
    let ray = pinhole(655).get_ray(ONE, -ONE, 580_000, ONE, 0);
    assert_eq!(ray.position, Vec3::new(2, -5 * ONE, 0));
    assert_eq!(ray.direction, Vec3::new(37_837, 37_837, 37_837));
    assert_eq!(ray.wavelength, 580_000);
    assert_eq!(ray.strength, ONE as u32);
}

#[test]
fn camera_spreads_long_waves_wider() {
    let red = pinhole(655).get_ray(ONE, -ONE, 680_000, ONE, 0);
    assert_eq!(red.direction, Vec3::new(37_899, 37_711, 37_899));
    let same = pinhole(0).get_ray(ONE, -ONE, 680_000, ONE, 0);
    assert_eq!(same.direction, Vec3::new(37_837, 37_837, 37_837));
}

#[test]
fn camera_with_a_lens_aims_every_ray_at_the_focus() {
    let camera = Camera::new(
        Vec3::new(0, -5 * ONE, 0),
        Quaternion::new(0, 0, 0, ONE),
        2 * ONE,
        4 * ONE,
        2 * ONE,
        0,
    );
    let ray = camera.get_ray(0, 0, 580_000, ONE, -ONE / 2);
    assert_eq!(ray.position, Vec3::new(ONE / 2, -5 * ONE, -ONE / 4));
    assert_eq!(ray.direction, Vec3::new(-8_114, 64_905, 4_056));
}

#[test]
fn camera_turns_with_its_orientation() {
    let camera = Camera::new(
        Vec3::new(ONE, 2 * ONE, 3 * ONE),
        Quaternion::new(0, 0, ONE, 0),
        ONE,
        4 * ONE,
        i32::MAX,
        0,
    );
    let ray = camera.get_ray(ONE / 2, 0, 580_000, 0, 0);
    assert_eq!(ray.position, Vec3::new(ONE, 2 * ONE, 3 * ONE));
    assert_eq!(ray.direction, Vec3::new(-29_309, -58_618, 0));
}
