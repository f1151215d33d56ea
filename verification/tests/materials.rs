use rtrace::geometry::intersection::Intersection;
use rtrace::geometry::ray::Ray;
use rtrace::geometry::vec3::Vec3;
use rtrace::material::black_body_radiator::BlackBodyRadiator;
use rtrace::material::diffuse::{get_bell_exponent, DiffuseGrayMaterial, SimpleDiffuseColoredMaterial};
use rtrace::material::glass::{
    get_fresnel, get_next_ray, get_refraction_index, BandPassColoredGlassMaterial,
    GaussianColoredGlassMaterial, GlassMaterial,
};
use rtrace::material::glossy::GlossyMaterial;
use rtrace::material::material::{Draws, Material, Radiator};
use rtrace::tracer::step_off;
use rtrace::material::spectrum_radiator::SpectrumRadiator;

const ONE: i32 = 65_536;
const FULL: u32 = 65_536;

fn up() -> Vec3 {
    Vec3::new(0, ONE, 0)
}

fn floor_hit() -> Intersection {
    Intersection::new(Vec3::new(7, 0, 9), up(), Vec3::new(0, 0, 0), 1)
}

fn ray(direction: Vec3, wavelength: u32, strength: u32) -> Ray {
    Ray::new(Vec3::new(0, 0, 0), direction, wavelength, strength)
}

fn slanted_down() -> Vec3 {
    Vec3::new(46_341, -46_341, 0)
}

fn slanted_up() -> Vec3 {
    Vec3::new(46_341, 46_341, 0)
}

#[test]
fn glass_refracts_short_waves_more() {
    assert_eq!(get_refraction_index(589_000), 116_949);
    assert_eq!(get_refraction_index(400_000), 120_941);
    assert_eq!(get_refraction_index(700_000), 116_113);
    let nm = 589.0f64;
    let w2 = nm * nm * 1.0e-6;
    let formula = (1.0 + 1.737596950 * w2 / (w2 - 0.0131887070) + 0.313747346 * w2 / (w2 - 0.0623068142)
        + 1.898781010 * w2 / (w2 - 155.23629))
        .sqrt();
    assert!((get_refraction_index(589_000) as f64 / 65_536.0 - formula).abs() < 0.0001);
}

#[test]
fn glass_index_outside_the_tuned_range_is_that_of_its_edge() {
    assert_eq!(get_refraction_index(100_000), get_refraction_index(260_000));
    assert_eq!(get_refraction_index(0), 175_421);
    assert_eq!(get_refraction_index(5_000_000), get_refraction_index(2_500_000));
    assert_eq!(get_refraction_index(u32::MAX), 113_104);
}

#[test]
fn glass_mirrors_little_head_on_and_all_at_a_glance() {
    let index = get_refraction_index(589_000);
    assert_eq!(get_fresnel(&Vec3::new(0, -ONE, 0), &up(), index), 5_201);
    assert_eq!(get_fresnel(&up(), &up(), index), 5_201);
    assert_eq!(get_fresnel(&Vec3::new(ONE, 0, 0), &up(), index), FULL);
    assert_eq!(get_fresnel(&slanted_down(), &up(), index), 5_980);
    assert_eq!(get_fresnel(&slanted_up(), &up(), index), FULL);
    assert_eq!(get_fresnel(&slanted_up(), &up(), 0), FULL);
    assert_eq!(get_fresnel(&slanted_down(), &up(), 0), FULL);
    let exact = ((1.7845001f64 - 1.0) / (1.7845001 + 1.0)).powi(2);
    assert!((get_fresnel(&Vec3::new(0, -ONE, 0), &up(), index) as f64 / 65_536.0 - exact).abs() < 0.0002);
}

#[test]
fn glass_bends_or_mirrors_by_the_draw() {
    let incoming = ray(slanted_down(), 589_000, 40_000);
    let bent = get_next_ray(incoming, floor_hit(), FULL - 1);
    assert_eq!(bent, Ray::new(Vec3::new(7, 0, 9), Vec3::new(25_967, -60_172, 0), 589_000, 40_000));
    let mirrored = get_next_ray(incoming, floor_hit(), 0);
    assert_eq!(mirrored.direction, Vec3::new(46_340, 46_340, 0));
    assert_eq!(get_next_ray(incoming, floor_hit(), 5_979).direction, mirrored.direction);
    assert_eq!(get_next_ray(incoming, floor_hit(), 5_980).direction, bent.direction);
    let sine_in = 46_341.0 / 65_536.0f64;
    let sine_out = 25_967.0 / 65_536.0f64;
    assert!((sine_in / sine_out - 116_949.0 / 65_536.0).abs() < 0.001);
    assert_eq!(GlassMaterial.get_next_ray(incoming, floor_hit(), FULL - 1), bent);
}

#[test]
fn glass_met_head_on_does_not_bend() {
    for wavelength in [300_000, 450_000, 589_000, 699_999] {
        let incoming = ray(Vec3::new(0, -ONE, 0), wavelength, FULL);
        assert_eq!(get_next_ray(incoming, floor_hit(), FULL - 1).direction, Vec3::new(0, -ONE, 0));
        let leaving = ray(up(), wavelength, FULL);
        assert_eq!(get_next_ray(leaving, floor_hit(), FULL - 1).direction, up());
    }
}

#[test]
fn glass_mirrors_every_ray_beyond_the_critical_angle() {
    let leaving = ray(slanted_up(), 589_000, FULL);
    for sample in [0, 1, 30_000, FULL - 1, u32::MAX] {
        assert_eq!(get_next_ray(leaving, floor_hit(), sample).direction, Vec3::new(46_340, -46_341, 0));
    }
}

#[test]
fn coloured_glass_takes_its_share() {
    let incoming = ray(slanted_down(), 589_000, 40_000);
    let clear = get_next_ray(incoming, floor_hit(), FULL - 1);
    let band = BandPassColoredGlassMaterial::new(570_000, 589_000);
    assert_eq!(band.get_next_ray(incoming, floor_hit(), FULL - 1), Ray { strength: 0, ..clear });
    let wide = BandPassColoredGlassMaterial::new(589_000, 589_001);
    assert_eq!(wide.get_next_ray(incoming, floor_hit(), FULL - 1), clear);
    let tinted = GaussianColoredGlassMaterial::new(600_000, 11_000);
    assert_eq!(tinted.exponent(&incoming), 32_768);
    assert_eq!(
        tinted.get_next_ray(incoming, floor_hit(), FULL - 1, 39_749),
        Ray { strength: 24_260, ..clear }
    );
}

#[test]
fn bell_curve_is_measured_in_deviations() {
    assert_eq!(get_bell_exponent(500_000, 10_000, 500_000), 0);
    assert_eq!(get_bell_exponent(500_000, 10_000, 510_000), 32_768);
    assert_eq!(get_bell_exponent(500_000, 10_000, 480_000), 131_072);
    assert_eq!(get_bell_exponent(400_000, 20_000, 700_000), 7_372_800);
    assert_eq!(get_bell_exponent(400_000, 0, 400_000), u64::MAX);
    assert_eq!(get_bell_exponent(u32::MAX, 1, 0), u64::MAX);
}

#[test]
fn matt_surface_scatters_around_the_normal_that_faces_the_ray() {
    let grey = DiffuseGrayMaterial::new(52_429);
    let straight_up = Vec3::new(0, 0, ONE);
    let from_above = grey.get_next_ray(ray(Vec3::new(0, -ONE, 0), 500_000, FULL), floor_hit(), straight_up);
    assert_eq!(from_above, Ray::new(Vec3::new(7, 0, 9), Vec3::new(0, ONE, 0), 500_000, 52_429));
    let from_below = grey.get_next_ray(ray(up(), 500_000, FULL), floor_hit(), straight_up);
    assert_eq!(from_below.direction, Vec3::new(0, -ONE, 0));
    let tilted = grey.get_next_ray(ray(Vec3::new(0, -ONE, 0), 500_000, FULL), floor_hit(), Vec3::new(39_322, 0, 52_429));
    assert_eq!(tilted.direction, Vec3::new(-39_322, 52_428, 0));
}

#[test]
fn coloured_matt_surface_weighs_by_the_bell_curve() {
    let red = SimpleDiffuseColoredMaterial::new(52_429, 600_000, 40_000);
    let incoming = ray(Vec3::new(0, -ONE, 0), 560_000, FULL);
    assert_eq!(red.exponent(&incoming), 32_768);
    let next = red.get_next_ray(incoming, floor_hit(), Vec3::new(0, 0, ONE), 39_749);
    assert_eq!(next, Ray::new(Vec3::new(7, 0, 9), Vec3::new(0, ONE, 0), 560_000, 31_799));
}

#[test]
fn glossy_surface_blends_mirror_and_base() {
    let base = Ray::new(Vec3::new(7, 0, 9), up(), 500_000, 32_768);
    let mirror = GlossyMaterial::new(0);
    let incoming = ray(Vec3::new(ONE, -ONE, 0), 500_000, FULL);
    let shiny = mirror.get_next_ray(incoming, floor_hit(), base);
    assert_eq!(shiny, Ray::new(Vec3::new(7, 0, 9), Vec3::new(46_340, 46_340, 0), 500_000, 32_768));
    let matt = GlossyMaterial::new(FULL);
    assert_eq!(matt.get_next_ray(incoming, floor_hit(), base), Ray { strength: FULL, ..base });
    let half = GlossyMaterial::new(32_768);
    let blend = half.get_next_ray(ray(slanted_down(), 500_000, FULL), floor_hit(), base);
    assert_eq!(blend.direction, Vec3::new(25_079, 60_547, 0));
    let most = GlossyMaterial::new(52_429);
    assert_eq!(most.get_next_ray(incoming, floor_hit(), base).strength, 58_982);
}

#[test]
fn band_light_shines_in_its_band_only() {
    let light = SpectrumRadiator::new(300_000, 800_000);
    assert_eq!(light.get_intensity(300_000), FULL);
    assert_eq!(light.get_intensity(799_999), FULL);
    assert_eq!(light.get_intensity(800_000), 0);
    assert_eq!(light.get_intensity(299_999), 0);
    assert_eq!(SpectrumRadiator::new(5, 5).get_intensity(5), 0);
    assert_eq!(SpectrumRadiator::new(9, 5).get_intensity(7), 0);
}

#[test]
fn hot_body_shines_as_made_at_its_peak() {
    let sun = BlackBodyRadiator::new(6_800, 8 * FULL);
    assert_eq!(sun.peak_wavelength(), Some(426_142));
    assert_eq!(BlackBodyRadiator::new(0, FULL).peak_wavelength(), None);
    for peak_emission in [1, 77, 1_000_000_007, u64::MAX] {
        assert_eq!(sun.get_intensity(peak_emission, peak_emission), 8 * FULL);
    }
    assert_eq!(sun.get_intensity(500, 1_000), 4 * FULL);
    assert_eq!(sun.get_intensity(1, 3), 174_762);
    assert_eq!(sun.get_intensity(0, 3), 0);
    assert_eq!(sun.get_intensity(u64::MAX, 1), u32::MAX);
}

fn draws(sample: u32, response: u32) -> Draws {
    Draws { hemisphere: Vec3::new(0, 0, ONE), sample, response }
}

#[test]
fn every_material_of_the_set_sends_the_ray_as_it_does_alone() {
    let down = ray(Vec3::new(0, -ONE, 0), 560_000, 40_000);
    let slanted = ray(slanted_down(), 589_000, 40_000);
    let grey = DiffuseGrayMaterial::new(52_429);
    assert_eq!(
        Material::DiffuseGray(grey).get_next_ray(down, floor_hit(), draws(9, 9)),
        grey.get_next_ray(down, floor_hit(), Vec3::new(0, 0, ONE))
    );
    let red = SimpleDiffuseColoredMaterial::new(52_429, 600_000, 40_000);
    assert_eq!(
        Material::DiffuseColored(red).get_next_ray(down, floor_hit(), draws(9, 39_749)),
        Ray::new(Vec3::new(7, 0, 9), Vec3::new(0, ONE, 0), 560_000, 31_799)
    );
    assert_eq!(
        Material::Glass(GlassMaterial).get_next_ray(slanted, floor_hit(), draws(FULL - 1, 0)),
        Ray::new(Vec3::new(7, 0, 9), Vec3::new(25_967, -60_172, 0), 589_000, 40_000)
    );
    assert_eq!(
        Material::Glass(GlassMaterial).get_next_ray(slanted, floor_hit(), draws(0, 0)).direction,
        Vec3::new(46_340, 46_340, 0)
    );
    let tinted = GaussianColoredGlassMaterial::new(600_000, 11_000);
    assert_eq!(
        Material::GaussianGlass(tinted).get_next_ray(slanted, floor_hit(), draws(FULL - 1, 39_749)),
        Ray::new(Vec3::new(7, 0, 9), Vec3::new(25_967, -60_172, 0), 589_000, 24_260)
    );
    let band = BandPassColoredGlassMaterial::new(570_000, 589_000);
    assert_eq!(
        Material::BandPassGlass(band).get_next_ray(slanted, floor_hit(), draws(FULL - 1, 7)),
        Ray::new(Vec3::new(7, 0, 9), Vec3::new(25_967, -60_172, 0), 589_000, 0)
    );
}

#[test]
fn glossy_material_of_the_set_blends_what_its_base_gives() {
    let incoming = ray(Vec3::new(ONE, -ONE, 0), 500_000, FULL);
    let base = DiffuseGrayMaterial::new(32_768);
    let mirror = Material::Glossy(GlossyMaterial::new(0), Box::new(Material::DiffuseGray(base)));
    assert_eq!(
        mirror.get_next_ray(incoming, floor_hit(), draws(0, 0)),
        Ray::new(Vec3::new(7, 0, 9), Vec3::new(46_340, 46_340, 0), 500_000, 32_768)
    );
    let most = Material::Glossy(
        GlossyMaterial::new(52_429),
        Box::new(Material::Glossy(GlossyMaterial::new(FULL), Box::new(Material::DiffuseGray(base)))),
    );
    let next = most.get_next_ray(incoming, floor_hit(), draws(0, 0));
    assert_eq!(next.strength, 65_536);
    assert_eq!(next.position, Vec3::new(7, 0, 9));
}

#[test]
fn material_of_the_set_names_the_exponent_it_wants() {
    let incoming = ray(Vec3::new(0, -ONE, 0), 560_000, FULL);
    let red = Material::DiffuseColored(SimpleDiffuseColoredMaterial::new(52_429, 600_000, 40_000));
    assert_eq!(red.exponent(&incoming), Some(32_768));
    let tinted = Material::GaussianGlass(GaussianColoredGlassMaterial::new(560_000, 11_000));
    assert_eq!(tinted.exponent(&incoming), Some(0));
    assert_eq!(Material::Glass(GlassMaterial).exponent(&incoming), None);
    assert_eq!(Material::DiffuseGray(DiffuseGrayMaterial::new(1)).exponent(&incoming), None);
    assert_eq!(
        Material::BandPassGlass(BandPassColoredGlassMaterial::new(1, 2)).exponent(&incoming),
        None
    );
    let glossy = Material::Glossy(GlossyMaterial::new(100), Box::new(red));
    assert_eq!(glossy.exponent(&incoming), Some(32_768));
}

#[test]
fn every_light_of_the_set_shines_as_it_does_alone() {
    let sun = Radiator::BlackBody(BlackBodyRadiator::new(6_800, 8 * FULL));
    assert_eq!(sun.get_intensity(426_142, 77, 77), 8 * FULL);
    assert_eq!(sun.get_intensity(500_000, 500, 1_000), 4 * FULL);
    let lamp = Radiator::Spectrum(SpectrumRadiator::new(300_000, 800_000));
    assert_eq!(lamp.get_intensity(300_000, 0, 1), FULL);
    assert_eq!(lamp.get_intensity(799_999, 5, 9), FULL);
    assert_eq!(lamp.get_intensity(800_000, 9, 9), 0);
}

#[test]
fn scattered_ray_steps_off_the_surface() {
    let start = Ray::new(Vec3::new(7, 0, 9), Vec3::new(0, ONE, 0), 500_000, 123);
    assert_eq!(step_off(start), Ray::new(Vec3::new(7, 7, 9), Vec3::new(0, ONE, 0), 500_000, 123));
    let slanted = Ray::new(Vec3::new(0, 0, 0), Vec3::new(39_322, -52_429, 0), 1, 2);
    assert_eq!(step_off(slanted).position, Vec3::new(4, -6, 0));
    let still = Ray::new(Vec3::new(1, 2, 3), Vec3::new(0, 0, 0), 1, 2);
    assert_eq!(step_off(still), still);
}
