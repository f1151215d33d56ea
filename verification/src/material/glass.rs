//! Glass, clear and coloured.
//!
//! At a glass surface a ray is either mirrored or passes through and is
//! bent. How much of the light is mirrored follows from Fresnel's equations,
//! how far the rest is bent from Snell's law, and both depend on the
//! wavelength through the index of refraction.

use vstd::prelude::*;
use crate::fixed::{clamp, floor_div, isqrt, quotient, ratio, sqrt_floor};
use crate::geometry::intersection::Intersection;
use crate::geometry::ray::Ray;
use crate::geometry::vec3::{fitted, narrowed, Vec3};
use crate::geometry::wide::{lemma_product_within, Triple, Wide};
use crate::material::diffuse::{bell_exponent, get_bell_exponent};
use crate::material::spectrum_radiator::in_band;
use crate::units::{scale, scaled};

verus! {

/// The shortest wavelength, in picometres, for which the dispersion formula
/// is used as it stands. A shorter wavelength is refracted like this one.
pub const SHORTEST_TUNED: u32 = 260_000;

/// The longest wavelength, in picometres, for which the dispersion formula is
/// used as it stands. A longer wavelength is refracted like this one.
pub const LONGEST_TUNED: u32 = 2_500_000;

/// A wavelength moved into the range in which the dispersion formula holds.
pub open spec fn tuned(wavelength: int) -> int {
    if wavelength < 260_000 {
        260_000
    } else if wavelength > 2_500_000 {
        2_500_000
    } else {
        wavelength
    }
}

/// One term of the dispersion formula, in 4294967296ths: `b` thousand
/// millionths, times `w` over `w - c`, where `w` is the square of the
/// wavelength and `c` the square of a wavelength at which the glass
/// resonates, both in square picometres. The quotient and the product are
/// each rounded down.
pub open spec fn dispersion(b: int, c: int, w: int) -> int {
    b * quotient(w * 0x1_0000_0000, w - c) / 1_000_000_000
}

/// The square of the index of refraction at a wavelength given in picometres,
/// in 4294967296ths, from the three-term dispersion formula.
pub open spec fn index_squared(wavelength: int) -> int {
    let w = tuned(wavelength) * tuned(wavelength);
    0x1_0000_0000 + dispersion(1_737_596_950, 13_188_707_000, w) + dispersion(
        313_747_346,
        62_306_814_200,
        w,
    ) + dispersion(1_898_781_010, 155_236_290_000_000, w)
}

/// The index of refraction at a wavelength given in picometres, in 65536ths
/// and rounded down.
pub open spec fn refraction_index(wavelength: int) -> int {
    sqrt_floor(index_squared(wavelength))
}

/// The first two terms of the dispersion formula are positive and bounded,
/// the third is negative and small.
proof fn lemma_ratio_bounds(w: int, c: int, k: int)
    requires
        0 < w,
        w != c,
        c < w ==> w <= k * (w - c),
        w < c ==> w <= k * (c - w),
        0 < k,
    ensures
        c < w ==> 0 <= quotient(w * 0x1_0000_0000, w - c) <= k * 0x1_0000_0000,
        w < c ==> -(k * 0x1_0000_0000) <= quotient(w * 0x1_0000_0000, w - c) <= 0,
{
    if c < w {
        let d = w - c;
        assert(0 <= (w * 0x1_0000_0000) / d <= k * 0x1_0000_0000) by (nonlinear_arith)
            requires
                0 < w <= k * d,
                0 < d,
        ;
    } else {
        let d = c - w;
        assert(-(k * 0x1_0000_0000) <= (-(w * 0x1_0000_0000)) / d <= 0) by (nonlinear_arith)
            requires
                0 < w <= k * d,
                0 < d,
        ;
    }
}

fn disperse(b: i128, c: i128, w: i128, Ghost(k): Ghost<int>) -> (term: i128)
    requires
        0 < b <= 2_000_000_000,
        0 < w <= 6_250_000_000_000,
        w != c,
        0 < c,
        c < w ==> w <= k * (w - c),
        w < c ==> w <= k * (c - w),
        0 < k <= 16,
        c <= 0x1_0000_0000_0000,
    ensures
        term == dispersion(b as int, c as int, w as int),
        c < w ==> 0 <= term <= 32 * 0x1_0000_0000,
        w < c ==> -32 * 0x1_0000_0000 <= term <= 0,
{
    proof {
        lemma_ratio_bounds(w as int, c as int, k);
    }
    let part: i128 = ratio(w * 0x1_0000_0000, w - c);
    proof {
        lemma_product_within(b as int, part as int, 2_000_000_000, 0x10_0000_0000);
        if c < w {
            assert(0 <= b * part) by (nonlinear_arith)
                requires
                    0 < b,
                    0 <= part,
            ;
        } else {
            assert(b * part <= 0) by (nonlinear_arith)
                requires
                    0 < b,
                    part <= 0,
            ;
        }
    }
    floor_div(b * part, 1_000_000_000)
}

/// The index of refraction of the glass at a wavelength given in picometres,
/// in 65536ths: the square root of one plus the three terms of the dispersion
/// formula.
pub fn get_refraction_index(wavelength: u32) -> (ior: u32)
    ensures
        ior == refraction_index(wavelength as int),
        ior > 0,
{
    let l: i128 = if wavelength < SHORTEST_TUNED {
        SHORTEST_TUNED as i128
    } else if wavelength > LONGEST_TUNED {
        LONGEST_TUNED as i128
    } else {
        wavelength as i128
    };
    assert(260_000 * 260_000 <= l * l <= 2_500_000 * 2_500_000) by (nonlinear_arith)
        requires
            260_000 <= l <= 2_500_000,
    ;
    let w: i128 = l * l;
    let first: i128 = disperse(1_737_596_950, 13_188_707_000, w, Ghost(2));
    let second: i128 = disperse(313_747_346, 62_306_814_200, w, Ghost(16));
    let third: i128 = disperse(1_898_781_010, 155_236_290_000_000, w, Ghost(1));
    proof {
        lemma_third_term_small(w as int);
    }
    let squared: i128 = 0x1_0000_0000 + first + second + third;
    let root: u64 = isqrt(squared as u128);
    assert(0 < root <= 0xFFFF_FFFF) by (nonlinear_arith)
        requires
            root * root <= squared < (root + 1) * (root + 1),
            0x8000_0000 <= squared <= 100 * 0x1_0000_0000,
            0 <= root,
    ;
    root as u32
}

/// In the tuned range the third term takes away less than half of the one
/// with which the sum starts.
proof fn lemma_third_term_small(w: int)
    requires
        260_000 * 260_000 <= w <= 2_500_000 * 2_500_000,
    ensures
        -0x8000_0000 <= dispersion(1_898_781_010, 155_236_290_000_000, w),
{
    let c = 155_236_290_000_000int;
    let d = c - w;
    let q = (-(w * 0x1_0000_0000)) / d;
    assert(-0x1000_0000 <= q) by (nonlinear_arith)
        requires
            q == (-(w * 0x1_0000_0000)) / d,
            0 < w,
            16 * w <= d,
            0 < d,
    ;
    assert(q <= 0) by (nonlinear_arith)
        requires
            q == (-(w * 0x1_0000_0000)) / d,
            0 < w,
            0 < d,
    ;
    assert(1_898_781_010 * q >= 1_898_781_010 * -0x1000_0000);
}

/// The cosine of the angle between two unit vectors, in 65536ths and rounded
/// down, held between minus one and one.
pub open spec fn cosine(a: Vec3, b: Vec3) -> int {
    let raw = a@.dot(b@) / 65_536;
    if raw < -65_536 {
        -65_536
    } else if raw > 65_536 {
        65_536
    } else {
        raw
    }
}

/// The square root of one minus the square of `v`, all in 65536ths, and zero
/// where `v` is larger than one: the sine that belongs to a cosine, and the
/// cosine that belongs to a sine.
pub open spec fn cofunction(v: int) -> int {
    if v * v >= 0x1_0000_0000 {
        0
    } else {
        sqrt_floor(0x1_0000_0000 - v * v)
    }
}

/// The share of two amplitudes that is mirrored: the square of their
/// difference over their sum, in 65536ths. Where both are nothing, all is
/// mirrored.
pub open spec fn mirrored_share(a: int, b: int) -> int {
    if a + b == 0 {
        65_536
    } else {
        let r = (a - b) * 65_536 / (a + b);
        r * r / 65_536
    }
}

/// The Fresnel reflectance, in 65536ths, of a surface between air and glass
/// with the index `ior`, for light whose direction makes the cosine `cosi`
/// with the surface normal: the mean of the reflectances of the two
/// polarisations. The light comes out of the glass where the cosine is
/// positive, and enters it otherwise. Beyond the critical angle the
/// reflectance is one.
pub open spec fn fresnel(cosi: int, ior: int) -> int {
    let etai = if cosi > 0 {
        ior
    } else {
        65_536
    };
    let etat = if cosi > 0 {
        65_536
    } else {
        ior
    };
    if etat == 0 {
        65_536
    } else {
        let sint = etai * cofunction(cosi) / etat;
        if sint >= 65_536 {
            65_536
        } else {
            let cost = cofunction(sint);
            let c = if cosi < 0 {
                -cosi
            } else {
                cosi
            };
            (mirrored_share(etat * c, etai * cost) + mirrored_share(etai * c, etat * cost)) / 2
        }
    }
}

fn cofunction_of(v: i128) -> (r: i128)
    requires
        -0x1_0000_0000 <= v <= 0x1_0000_0000,
    ensures
        r == cofunction(v as int),
        0 <= r <= 65_536,
{
    proof {
        lemma_product_within(v as int, v as int, 0x1_0000_0000, 0x1_0000_0000);
        assert(v * v >= 0) by (nonlinear_arith);
    }
    let squared: i128 = v * v;
    if squared >= 0x1_0000_0000 {
        0
    } else {
        let root: u64 = isqrt((0x1_0000_0000 - squared) as u128);
        assert(root <= 65_536) by (nonlinear_arith)
            requires
                root * root <= 0x1_0000_0000,
                0 <= root,
        ;
        root as i128
    }
}

fn mirrored_share_of(a: i128, b: i128) -> (r: i128)
    requires
        0 <= a <= 0x1_0000_0000_0000,
        0 <= b <= 0x1_0000_0000_0000,
    ensures
        r == mirrored_share(a as int, b as int),
        0 <= r <= 65_536,
{
    if a + b == 0 {
        return 65_536;
    }
    let r: i128 = floor_div((a - b) * 65_536, a + b);
    proof {
        let n = (a - b) as int;
        let d = (a + b) as int;
        assert(-65_536 <= n * 65_536 / d <= 65_536) by (nonlinear_arith)
            requires
                -d <= n <= d,
                0 < d,
        ;
        lemma_product_within(r as int, r as int, 65_536, 65_536);
        assert(r * r >= 0) by (nonlinear_arith);
    }
    r * r / 65_536
}

fn cosine_of(a: &Vec3, b: &Vec3) -> (r: i128)
    ensures
        r == cosine(*a, *b),
        -65_536 <= r <= 65_536,
{
    let raw: i128 = floor_div(
        Wide::of(a).dot(&Wide::of(b), Ghost(0x8000_0000), Ghost(0x8000_0000)),
        65_536,
    );
    if raw < -65_536 {
        -65_536
    } else if raw > 65_536 {
        65_536
    } else {
        raw
    }
}

/// The Fresnel reflectance, in 65536ths, that a ray along `vec_in` finds at a
/// surface with the normal `vec_normal` between air and glass of the index
/// `ior`. It is never more than one.
pub fn get_fresnel(vec_in: &Vec3, vec_normal: &Vec3, ior: u32) -> (reflectance: u32)
    ensures
        reflectance == fresnel(cosine(*vec_in, *vec_normal), ior as int),
        reflectance <= 65_536,
{
    let cosi: i128 = cosine_of(vec_in, vec_normal);
    let etai: i128 = if cosi > 0 {
        ior as i128
    } else {
        65_536
    };
    let etat: i128 = if cosi > 0 {
        65_536
    } else {
        ior as i128
    };
    if etat == 0 {
        return 65_536;
    }
    let sine: i128 = cofunction_of(cosi);
    proof {
        lemma_product_within(etai as int, sine as int, 0x1_0000_0000, 65_536);
        assert(etai * sine >= 0) by (nonlinear_arith)
            requires
                etai >= 0,
                sine >= 0,
        ;
    }
    let sint: i128 = floor_div(etai * sine, etat);
    if sint >= 65_536 {
        return 65_536;
    }
    let cost: i128 = cofunction_of(sint);
    let c: i128 = if cosi < 0 {
        -cosi
    } else {
        cosi
    };
    proof {
        lemma_product_within(etat as int, c as int, 0x1_0000_0000, 65_536);
        lemma_product_within(etai as int, cost as int, 0x1_0000_0000, 65_536);
        lemma_product_within(etai as int, c as int, 0x1_0000_0000, 65_536);
        lemma_product_within(etat as int, cost as int, 0x1_0000_0000, 65_536);
        assert(etat * c >= 0 && etai * cost >= 0 && etai * c >= 0 && etat * cost >= 0)
            by (nonlinear_arith)
            requires
                etat >= 0,
                etai >= 0,
                c >= 0,
                cost >= 0,
        ;
    }
    let rs: i128 = mirrored_share_of(etat * c, etai * cost);
    let rp: i128 = mirrored_share_of(etai * c, etat * cost);
    ((rs + rp) / 2) as u32
}

/// The factor by which Snell's law changes the sine of a ray's angle at the
/// surface, in 65536ths: one over the index for a ray that enters the glass,
/// which is one for which `facing`, the cosine between the reversed ray and
/// the normal, is positive, and the index itself for a ray that leaves it.
pub open spec fn snell_factor(facing: int, ior: int) -> int {
    if facing > 0 {
        0x1_0000_0000int / ior
    } else {
        ior
    }
}

/// The square of the sine of the angle of the refracted ray, in 65536ths.
/// The refracted ray exists where this is at most one.
pub open spec fn refracted_sine_squared(facing: int, ior: int) -> int {
    let eta = snell_factor(facing, ior);
    eta * eta * (0x1_0000_0000 - facing * facing) / 0x1_0000_0000_0000
}

/// The normal on the side from which the ray comes.
pub open spec fn near_normal(facing: int, normal: Vec3) -> Vec3 {
    if facing > 0 {
        normal
    } else {
        fitted(normal@.negated())
    }
}

/// The direction of the refracted ray before it is brought to unit length:
/// the ray's direction times the Snell factor, plus the near normal times
/// what is needed to give the refracted ray its angle.
pub open spec fn bent(direction: Vec3, normal: Vec3, facing: int, ior: int) -> Triple {
    let eta = snell_factor(facing, ior);
    let c = if facing > 0 {
        facing
    } else {
        -facing
    };
    let sine_squared = refracted_sine_squared(facing, ior);
    let k = eta * c / 65_536 - sqrt_floor((65_536 - sine_squared) * 65_536);
    direction@.times(eta).plus(near_normal(facing, normal)@.times(k)).over(65_536)
}

/// Whether the glass mirrors the ray: the draw `sample` falls under the
/// Fresnel reflectance, or the ray meets the surface beyond the critical
/// angle, where no refracted ray exists.
pub open spec fn mirrors(direction: Vec3, normal: Vec3, ior: int, sample: int) -> bool {
    let facing = -(direction@.dot(normal@)) / 65_536;
    ||| sample < fresnel(cosine(direction, normal), ior)
    ||| refracted_sine_squared(facing, ior) > 65_536
}

/// The direction in which the ray leaves the glass surface, of unit length.
pub open spec fn glass_direction(direction: Vec3, normal: Vec3, ior: int, sample: int) -> Vec3 {
    let facing = -(direction@.dot(normal@)) / 65_536;
    if sample < fresnel(cosine(direction, normal), ior) {
        narrowed(direction.mirrored(normal)@.unit())
    } else if refracted_sine_squared(facing, ior) > 65_536 {
        narrowed(direction.mirrored(near_normal(facing, normal))@.unit())
    } else {
        narrowed(bent(direction, normal, facing, ior).unit())
    }
}

/// The ray that leaves a glass surface.
pub open spec fn glass_ray(incoming: Ray, intersection: Intersection, sample: int) -> Ray {
    Ray {
        position: intersection.position,
        direction: glass_direction(
            incoming.direction,
            intersection.normal,
            refraction_index(incoming.wavelength as int),
            sample,
        ),
        wavelength: incoming.wavelength,
        strength: incoming.strength,
    }
}

/// Sends a ray on from a glass surface. `sample` is a uniform draw below
/// `ONE`: where it falls under the Fresnel reflectance the ray is mirrored,
/// and otherwise it is bent by Snell's law, unless it meets the surface
/// beyond the critical angle, where it is mirrored after all.
pub fn get_next_ray(incoming: Ray, intersection: Intersection, sample: u32) -> (next: Ray)
    requires
        incoming.direction.is_direction(),
        intersection.normal.is_direction(),
    ensures
        next == glass_ray(incoming, intersection, sample as int),
        next.direction.is_direction(),
{
    let ior: u32 = get_refraction_index(incoming.wavelength);
    let reflectance: u32 = get_fresnel(&incoming.direction, &intersection.normal, ior);
    let direction = if sample < reflectance {
        incoming.direction.reflect(&intersection.normal).normalize()
    } else {
        let d = Wide::of(&incoming.direction);
        let raw: i128 = d.dot(&Wide::of(&intersection.normal), Ghost(65_536), Ghost(65_536));
        let facing: i128 = floor_div(-raw, 65_536);
        let eta: i128 = if facing > 0 {
            0x1_0000_0000 / ior as i128
        } else {
            ior as i128
        };
        let normal = if facing > 0 {
            intersection.normal
        } else {
            Vec3 {
                x: clamp(-(intersection.normal.x as i128)),
                y: clamp(-(intersection.normal.y as i128)),
                z: clamp(-(intersection.normal.z as i128)),
            }
        };
        let c: i128 = if facing > 0 {
            facing
        } else {
            -facing
        };
        proof {
            lemma_product_within(eta as int, eta as int, 0x1_0000_0000, 0x1_0000_0000);
            lemma_product_within(facing as int, facing as int, 0x4_0000, 0x4_0000);
            assert(eta * eta >= 0) by (nonlinear_arith);
            assert(facing * facing >= 0) by (nonlinear_arith);
            lemma_product_within(
                (eta * eta) as int,
                0x1_0000_0000 - facing * facing,
                0x1_0000_0000_0000_0000,
                0x10_0000_0000,
            );
        }
        let sine_squared: i128 = floor_div(
            eta * eta * (0x1_0000_0000 - facing * facing),
            0x1_0000_0000_0000,
        );
        if sine_squared > 65_536 {
            incoming.direction.reflect(&normal).normalize()
        } else {
            proof {
                lemma_product_within(eta as int, c as int, 0x1_0000_0000, 0x4_0000);
            }
            assert(0 <= (65_536 - sine_squared) * 65_536);
            let root: u64 = isqrt(((65_536 - sine_squared) * 65_536) as u128);
            assert(root <= 0x8_0000_0000) by (nonlinear_arith)
                requires
                    root * root <= (65_536 - sine_squared) * 65_536,
                    (65_536 - sine_squared) * 65_536 <= 0x40_0000_0000_0000_0000,
                    0 <= root,
            ;
            let k: i128 = floor_div(eta * c, 65_536) - root as i128;
            proof {
                lemma_product_within(incoming.direction.x as int, eta as int, 65_536, 0x1_0000_0000);
                lemma_product_within(incoming.direction.y as int, eta as int, 65_536, 0x1_0000_0000);
                lemma_product_within(incoming.direction.z as int, eta as int, 65_536, 0x1_0000_0000);
                lemma_product_within(normal.x as int, k as int, 65_536, 0x10_0000_0000);
                lemma_product_within(normal.y as int, k as int, 65_536, 0x10_0000_0000);
                lemma_product_within(normal.z as int, k as int, 65_536, 0x10_0000_0000);
            }
            let bent = Wide {
                x: floor_div(incoming.direction.x as i128 * eta + normal.x as i128 * k, 65_536),
                y: floor_div(incoming.direction.y as i128 * eta + normal.y as i128 * k, 65_536),
                z: floor_div(incoming.direction.z as i128 * eta + normal.z as i128 * k, 65_536),
            };
            bent.unit()
        }
    };
    Ray::new(intersection.position, direction, incoming.wavelength, incoming.strength)
}

/// Clear glass.
#[derive(Clone, Copy, PartialEq, Eq, Debug, Structural)]
pub struct GlassMaterial;

impl GlassMaterial {
    /// The ray that leaves the surface, for a uniform draw `sample` below
    /// `ONE`. The glass takes nothing from the ray's strength.
    pub fn get_next_ray(&self, incoming: Ray, intersection: Intersection, sample: u32) -> (next: Ray)
        requires
            incoming.direction.is_direction(),
            intersection.normal.is_direction(),
        ensures
            next == glass_ray(incoming, intersection, sample as int),
            next.direction.is_direction(),
    {
        get_next_ray(incoming, intersection, sample)
    }
}

/// Glass that lets light of its own wavelength, given in picometres, pass in
/// full, and light of other wavelengths the less the farther they lie from
/// it, along a bell curve as wide as `deviation`.
#[derive(Clone, Copy, PartialEq, Eq, Debug, Structural)]
pub struct GaussianColoredGlassMaterial {
    pub wavelength: u32,
    pub deviation: u32,
}

impl GaussianColoredGlassMaterial {
    /// Coloured glass.
    pub fn new(wavelength: u32, deviation: u32) -> (material: GaussianColoredGlassMaterial)
        ensures
            material == (GaussianColoredGlassMaterial { wavelength, deviation }),
    {
        GaussianColoredGlassMaterial { wavelength, deviation }
    }

    /// The number whose negative exponential is the share of light that the
    /// glass lets pass at the wavelength of `incoming`.
    pub fn exponent(&self, incoming: &Ray) -> (exponent: u64)
        ensures
            exponent == bell_exponent(self.wavelength, self.deviation, incoming.wavelength),
    {
        get_bell_exponent(self.wavelength, self.deviation, incoming.wavelength)
    }

    /// The ray that leaves the surface: that of clear glass, with its
    /// strength times `response`, which is the negative exponential of
    /// `exponent(incoming)`, in 65536ths, as the caller has evaluated it.
    pub fn get_next_ray(
        &self,
        incoming: Ray,
        intersection: Intersection,
        sample: u32,
        response: u32,
    ) -> (next: Ray)
        requires
            incoming.direction.is_direction(),
            intersection.normal.is_direction(),
        ensures
            next == (Ray {
                strength: scaled(incoming.strength as int, response as int) as u32,
                ..glass_ray(incoming, intersection, sample as int)
            }),
            next.direction.is_direction(),
    {
        let ray = get_next_ray(incoming, intersection, sample);
        Ray { strength: scale(ray.strength, response), ..ray }
    }
}

/// Glass that lets one band of wavelengths pass and swallows all others.
#[derive(Clone, Copy, PartialEq, Eq, Debug, Structural)]
pub struct BandPassColoredGlassMaterial {
    pub min_wavelength: u32,
    pub max_wavelength: u32,
}

impl BandPassColoredGlassMaterial {
    /// Glass for the band from `min_wavelength` up to, and not including,
    /// `max_wavelength`, both in picometres.
    pub fn new(min_wavelength: u32, max_wavelength: u32) -> (material: BandPassColoredGlassMaterial)
        ensures
            material == (BandPassColoredGlassMaterial { min_wavelength, max_wavelength }),
    {
        BandPassColoredGlassMaterial { min_wavelength, max_wavelength }
    }

    /// The ray that leaves the surface: that of clear glass, with its own
    /// strength inside the band and with none outside.
    pub fn get_next_ray(&self, incoming: Ray, intersection: Intersection, sample: u32) -> (next: Ray)
        requires
            incoming.direction.is_direction(),
            intersection.normal.is_direction(),
        ensures
            next == (Ray {
                strength: if in_band(self.min_wavelength, self.max_wavelength, incoming.wavelength) {
                    incoming.strength
                } else {
                    0
                },
                ..glass_ray(incoming, intersection, sample as int)
            }),
            next.direction.is_direction(),
    {
        let strength: u32 = if incoming.wavelength >= self.min_wavelength && incoming.wavelength
            < self.max_wavelength {
            incoming.strength
        } else {
            0
        };
        let ray = get_next_ray(incoming, intersection, sample);
        Ray { strength, ..ray }
    }
}

/// Mirroring at a normal and mirroring at its opposite are the same.
pub proof fn lemma_mirror_ignores_side(direction: Vec3, normal: Vec3)
    requires
        normal.is_direction(),
    ensures
        direction.mirrored(fitted(normal@.negated())) == direction.mirrored(normal),
{
    let n = normal@;
    let m = fitted(n.negated())@;
    let a = direction@;
    assert(m == n.negated());
    assert(m.dot(a) == -n.dot(a)) by (nonlinear_arith)
        requires
            m == n.negated(),
            m.dot(a) == m.x * a.x + m.y * a.y + m.z * a.z,
            n.dot(a) == n.x * a.x + n.y * a.y + n.z * a.z,
    ;
    assert(m.times(2 * m.dot(a)) == n.times(2 * n.dot(a))) by (nonlinear_arith)
        requires
            m == n.negated(),
            m.dot(a) == -n.dot(a),
            m.times(2 * m.dot(a)) == (Triple {
                x: m.x * (2 * m.dot(a)),
                y: m.y * (2 * m.dot(a)),
                z: m.z * (2 * m.dot(a)),
            }),
            n.times(2 * n.dot(a)) == (Triple {
                x: n.x * (2 * n.dot(a)),
                y: n.y * (2 * n.dot(a)),
                z: n.z * (2 * n.dot(a)),
            }),
    ;
}

/// Beyond the critical angle glass always mirrors and never refracts:
/// where Snell's law leaves no refracted ray, the ray goes the mirror's way
/// whatever was drawn.
pub proof fn lemma_beyond_critical_angle_mirrors(direction: Vec3, normal: Vec3, ior: int, sample: int)
    requires
        normal.is_direction(),
        refracted_sine_squared(-(direction@.dot(normal@)) / 65_536, ior) > 65_536,
    ensures
        mirrors(direction, normal, ior, sample),
        glass_direction(direction, normal, ior, sample) == narrowed(
            direction.mirrored(normal)@.unit(),
        ),
{
    lemma_mirror_ignores_side(direction, normal);
}

/// A ray that meets glass head-on is not bent, whatever its wavelength:
/// where the ray runs straight against a normal of exactly unit length and
/// is not mirrored, it leaves the surface in the direction in which it came.
pub proof fn lemma_head_on_goes_straight(direction: Vec3, normal: Vec3, ior: int, sample: int)
    requires
        direction@ == normal@.negated(),
        normal@.norm_squared() == 0x1_0000_0000,
        0 < ior,
        sample >= fresnel(cosine(direction, normal), ior),
    ensures
        !mirrors(direction, normal, ior, sample),
        glass_direction(direction, normal, ior, sample) == narrowed(direction@.unit()),
{
    let d = direction@;
    let n = normal@;
    assert(d.dot(n) == -n.norm_squared()) by (nonlinear_arith)
        requires
            d == n.negated(),
            d.dot(n) == d.x * n.x + d.y * n.y + d.z * n.z,
            n.norm_squared() == n.x * n.x + n.y * n.y + n.z * n.z,
    ;
    let facing = -(d.dot(n)) / 65_536;
    assert(facing == 65_536);
    let eta = snell_factor(facing, ior);
    assert(eta == 0x1_0000_0000int / ior);
    assert(eta * eta * (0x1_0000_0000 - facing * facing) == 0) by (nonlinear_arith)
        requires
            facing == 65_536,
    ;
    assert(refracted_sine_squared(facing, ior) == 0);
    crate::fixed::lemma_sqrt_of_square(65_536);
    assert((65_536 - 0) * 65_536 == 65_536 * 65_536);
    assert(eta * 65_536 / 65_536 == eta);
    let k = eta - 65_536;
    assert(near_normal(facing, normal) == normal);
    assert(d.times(eta).plus(n.times(k)) == d.times(65_536)) by (nonlinear_arith)
        requires
            d == n.negated(),
            k == eta - 65_536,
            d.times(eta) == (Triple { x: d.x * eta, y: d.y * eta, z: d.z * eta }),
            n.times(k) == (Triple { x: n.x * k, y: n.y * k, z: n.z * k }),
            d.times(65_536) == (Triple { x: d.x * 65_536, y: d.y * 65_536, z: d.z * 65_536 }),
            d.times(eta).plus(n.times(k)) == (Triple {
                x: d.x * eta + n.x * k,
                y: d.y * eta + n.y * k,
                z: d.z * eta + n.z * k,
            }),
    ;
    assert(d.times(65_536).over(65_536) == d);
    assert(bent(direction, normal, facing, ior) == d);
}

} // verus!
