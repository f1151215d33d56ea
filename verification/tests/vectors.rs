use rtrace::fixed::{clamp, floor_div, isqrt, ratio};
use rtrace::geometry::quaternion::Quaternion;
use rtrace::geometry::vec3::Vec3;

const ONE: i32 = 65_536;

#[test]
fn whole_number_helpers_round_down() {
    assert_eq!(floor_div(7, 2), 3);
    assert_eq!(floor_div(-7, 2), -4);
    assert_eq!(floor_div(-8, 2), -4);
    assert_eq!(floor_div(0, 5), 0);
    assert_eq!(ratio(7, -2), -4);
    assert_eq!(ratio(-7, -2), 3);
    assert_eq!(ratio(-7, 2), -4);
    assert_eq!(isqrt(0), 0);
    assert_eq!(isqrt(15), 3);
    assert_eq!(isqrt(16), 4);
    assert_eq!(isqrt(u128::MAX), u64::MAX);
    assert_eq!(clamp(1 << 40), i32::MAX);
    assert_eq!(clamp(-(1 << 40)), i32::MIN);
    assert_eq!(clamp(-17), -17);
}

#[test]
fn vectors_add_subtract_and_scale() {
    let a = Vec3::new(ONE, 2 * ONE, -3 * ONE);
    let b = Vec3::new(10, -20, 30);
    assert_eq!(a.add(&b), Vec3::new(ONE + 10, 2 * ONE - 20, -3 * ONE + 30));
    assert_eq!(a.subtract(&b), Vec3::new(ONE - 10, 2 * ONE + 20, -3 * ONE - 30));
    assert_eq!(a.scale(ONE / 2), Vec3::new(ONE / 2, ONE, -3 * ONE / 2));
    assert_eq!(Vec3::new(3, -3, 0).scale(ONE / 2), Vec3::new(1, -2, 0));
    assert_eq!(a.scale(-ONE), Vec3::new(-ONE, -2 * ONE, 3 * ONE));
}

#[test]
fn vectors_stop_at_the_edge_of_space() {
    let far = Vec3::new(i32::MAX, i32::MIN, 0);
    assert_eq!(far.add(&Vec3::new(1, -1, 0)), far);
    assert_eq!(far.subtract(&Vec3::new(-1, 1, 0)), far);
    assert_eq!(far.scale(2 * ONE), far);
}

#[test]
fn vectors_have_lengths_and_products() {
    let v = Vec3::new(3 * ONE, 4 * ONE, 0);
    assert_eq!(v.length(), 5 * ONE as u32);
    assert_eq!(v.length_squared(), 25 * ONE as u64);
    assert_eq!(Vec3::new(1, 1, 1).length(), 1);
    assert_eq!(v.dot(&Vec3::new(ONE, ONE, ONE)), 7 * ONE as i64);
    assert_eq!(Vec3::new(-1, 0, 0).dot(&Vec3::new(1, 0, 0)), -1);
    let x = Vec3::new(ONE, 0, 0);
    let y = Vec3::new(0, ONE, 0);
    assert_eq!(x.cross(&y), Vec3::new(0, 0, ONE));
    assert_eq!(y.cross(&x), Vec3::new(0, 0, -ONE));
    assert_eq!(v.cross(&v), Vec3::new(0, 0, 0));
}

#[test]
fn vectors_are_brought_to_unit_length() {
    assert_eq!(Vec3::new(3 * ONE, 4 * ONE, 0).normalize(), Vec3::new(39_321, 52_428, 0));
    assert_eq!(Vec3::new(ONE, ONE, 0).normalize(), Vec3::new(46_340, 46_340, 0));
    assert_eq!(Vec3::new(1, 2, 2).normalize(), Vec3::new(21_845, 43_690, 43_690));
    assert_eq!(Vec3::new(0, -7, 0).normalize(), Vec3::new(0, -ONE, 0));
    assert_eq!(Vec3::new(0, 0, 0).normalize(), Vec3::new(0, 0, 0));
    assert_eq!(Vec3::new(i32::MIN, 0, 0).normalize(), Vec3::new(-ONE, 0, 0));
}

#[test]
fn vectors_are_mirrored() {
    let down = Vec3::new(ONE, -ONE, 0);
    let up = Vec3::new(0, ONE, 0);
    assert_eq!(down.reflect(&up), Vec3::new(ONE, ONE, 0));
    assert_eq!(down.reflect(&Vec3::new(0, -ONE, 0)), Vec3::new(ONE, ONE, 0));
    assert_eq!(down.reflect(&Vec3::new(0, 0, ONE)), down);
}

#[test]
fn vectors_are_carried_into_a_frame() {
    let up = Vec3::new(0, 0, ONE);
    let sample = Vec3::new(1_000, 2_000, 3_000);
    assert_eq!(sample.rotate_towards(&up), sample);
    assert_eq!(sample.rotate_towards(&Vec3::new(0, 0, -ONE)), Vec3::new(1_000, 2_000, -3_000));
    let forward = Vec3::new(0, ONE, 0);
    assert_eq!(Vec3::new(0, 0, ONE).rotate_towards(&forward), Vec3::new(0, ONE, 0));
    assert_eq!(Vec3::new(ONE, 0, 0).rotate_towards(&forward), Vec3::new(-ONE, 0, 0));
    assert_eq!(Vec3::new(0, ONE, 0).rotate_towards(&forward), Vec3::new(0, 0, -ONE));
}

#[test]
fn quaternions_add_scale_and_multiply() {
    let q = Quaternion::new(1_000, 2_000, 3_000, 4_000);
    let identity = Quaternion::new(0, 0, 0, ONE);
    assert_eq!(identity.multiply(&q), q);
    assert_eq!(q.multiply(&identity), q);
    assert_eq!(q.conjugate(), Quaternion::new(-1_000, -2_000, -3_000, 4_000));
    assert_eq!(q.add(&q), Quaternion::new(2_000, 4_000, 6_000, 8_000));
    assert_eq!(q.subtract(&q), Quaternion::new(0, 0, 0, 0));
    assert_eq!(q.scale(ONE / 2), Quaternion::new(500, 1_000, 1_500, 2_000));
    let i = Quaternion::new(ONE, 0, 0, 0);
    let j = Quaternion::new(0, ONE, 0, 0);
    assert_eq!(i.multiply(&j), Quaternion::new(0, 0, ONE, 0));
    assert_eq!(j.multiply(&i), Quaternion::new(0, 0, -ONE, 0));
    assert_eq!(i.multiply(&i), Quaternion::new(0, 0, 0, -ONE));
}

#[test]
fn quaternions_turn_vectors() {
    let half_turn_about_z = Quaternion::rotation(0, 0, ONE, ONE, 0);
    assert_eq!(half_turn_about_z, Quaternion::new(0, 0, ONE, 0));
    assert_eq!(Vec3::new(ONE, 2 * ONE, 3 * ONE).rotate(&half_turn_about_z), Vec3::new(-ONE, -2 * ONE, 3 * ONE));
    let quarter_turn_about_z = Quaternion::rotation(0, 0, ONE, 46_341, 46_341);
    assert_eq!(quarter_turn_about_z, Quaternion::new(0, 0, 46_341, 46_341));
    assert_eq!(Vec3::new(ONE, 0, 0).rotate(&quarter_turn_about_z), Vec3::new(0, ONE, 0));
    assert_eq!(Vec3::new(0, ONE, 0).rotate(&quarter_turn_about_z), Vec3::new(-65_537, 0, 0));
    let still = Quaternion::new(0, 0, 0, ONE);
    assert_eq!(Vec3::new(5, -6, 7).rotate(&still), Vec3::new(5, -6, 7));
}
