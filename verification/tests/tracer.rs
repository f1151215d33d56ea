use rand::rngs::StdRng;
use rand::SeedableRng;
use rtrace::ptrandom::{
    bi_unit_for, get_bi_unit, get_unit, get_wavelength, unit_for, wavelength_for,
};
use rtrace::tracer::{rays_per_slice, Encounter, RenderIterator, Sample, Walk, SLICE_COUNT};
use rtrace::units::scale;

const ONE: u32 = 65_536;

#[test]
fn amounts_multiply_in_65536ths() {
    assert_eq!(scale(ONE, 3 * ONE), 3 * ONE);
    assert_eq!(scale(ONE / 2, ONE / 2), ONE / 4);
    assert_eq!(scale(3, 30_000), 1);
    assert_eq!(scale(0, u32::MAX), 0);
    assert_eq!(scale(u32::MAX, u32::MAX), u32::MAX);
}

#[test]
fn walk_starts_with_full_throughput() {
    let walk = Walk::begin();
    assert_eq!(walk, Walk::Tracing { throughput: ONE, survival: ONE });
    assert!(!walk.is_over());
    assert_eq!(walk.radiance(), 0);
}

#[test]
fn walk_ends_at_a_light_with_its_intensity() {
    let walk = Walk::begin().advance(Encounter::Luminous { intensity: 8 * ONE });
    assert_eq!(walk, Walk::HitLight { radiance: 8 * ONE });
    assert!(walk.is_over());
    assert_eq!(walk.radiance(), 8 * ONE);
}

#[test]
fn walk_ends_dark_where_the_ray_escapes() {
    let walk = Walk::begin().advance(Encounter::Nothing);
    assert_eq!(walk, Walk::Escaped);
    assert!(walk.is_over());
    assert_eq!(walk.radiance(), 0);
}

#[test]
fn walk_weakens_at_each_surface() {
    let once = Walk::begin().advance(Encounter::Dark { strength: ONE / 2 });
    assert_eq!(once, Walk::HitSurface { throughput: ONE / 2, survival: 62_914 });
    assert!(!once.is_over());
    let on = once.roulette(0, ONE);
    assert_eq!(on, Walk::Tracing { throughput: ONE / 2, survival: 62_914 });
    let twice = on.advance(Encounter::Dark { strength: ONE / 2 });
    assert_eq!(twice, Walk::HitSurface { throughput: ONE / 4, survival: 60_397 });
    let home = twice.roulette(0, ONE).advance(Encounter::Luminous { intensity: 6 * ONE });
    assert_eq!(home, Walk::HitLight { radiance: 6 * ONE / 4 });
}

#[test]
fn roulette_kills_where_the_draw_beats_the_chance() {
    let waiting = Walk::HitSurface { throughput: ONE, survival: 62_914 };
    // 85 hundredths of the draw against 62914/65536 of the vitality
    assert_eq!(waiting.roulette(ONE - 1, ONE), Walk::Tracing { throughput: ONE, survival: 62_914 });
    assert_eq!(waiting.roulette(ONE - 1, ONE / 2), Walk::RouletteKilled);
    assert_eq!(waiting.roulette(37_008, ONE / 2), Walk::Tracing { throughput: ONE, survival: 62_914 });
    assert_eq!(waiting.roulette(37_009, ONE / 2), Walk::RouletteKilled);
    assert_eq!(waiting.roulette(1, 0), Walk::RouletteKilled);
    assert_eq!(waiting.roulette(0, 0), Walk::Tracing { throughput: ONE, survival: 62_914 });
    assert!(Walk::RouletteKilled.is_over());
    assert_eq!(Walk::RouletteKilled.radiance(), 0);
}

#[test]
fn finished_walk_stays_as_it_is() {
    for walk in [Walk::Escaped, Walk::RouletteKilled, Walk::HitLight { radiance: 7 }] {
        assert_eq!(walk.advance(Encounter::Dark { strength: ONE }), walk);
        assert_eq!(walk.advance(Encounter::Luminous { intensity: ONE }), walk);
        assert_eq!(walk.advance(Encounter::Nothing), walk);
        assert_eq!(walk.roulette(ONE - 1, 0), walk);
    }
    let tracing = Walk::begin();
    assert_eq!(tracing.roulette(ONE - 1, 0), tracing);
    let waiting = Walk::HitSurface { throughput: 5, survival: 6 };
    assert_eq!(waiting.advance(Encounter::Nothing), waiting);
}

#[test]
fn slices_tile_the_screen() {
    let all = RenderIterator::new_global();
    assert_eq!(all, RenderIterator { min_x: -65_536, max_x: 65_536, min_y: -65_536, max_y: 65_536 });
    assert_eq!(RenderIterator::new_sliced(1, 2, 3, 4), RenderIterator { min_x: 1, max_x: 2, min_y: 3, max_y: 4 });
    let mut edge = -65_536;
    for index in 0..SLICE_COUNT {
        let slice = RenderIterator::for_slice(index);
        assert_eq!((slice.min_x, slice.max_x), (-65_536, 65_536));
        assert_eq!(slice.min_y, edge);
        assert_eq!(slice.max_y, edge + 128);
        edge = slice.max_y;
    }
    assert_eq!(edge, 65_536);
}

#[test]
fn slices_share_the_rays() {
    assert_eq!(rays_per_slice(50, 512, 512), 12_800);
    assert_eq!(rays_per_slice(1, 10, 10), 0);
    assert_eq!(rays_per_slice(3, 100, 100), 29);
    assert_eq!(rays_per_slice(u32::MAX, u16::MAX, u16::MAX), 18_013_848_753_668_223);
}

#[test]
fn samples_are_placed_by_their_draws() {
    let slice = RenderIterator::new_sliced(-65_536, 65_536, -128, 0);
    assert_eq!(slice.place(0, 0, 0), Sample { x: -65_536, y: -128, wavelength: 300_000 });
    assert_eq!(slice.place(32_768, 32_768, 32_768), Sample { x: 0, y: -64, wavelength: 500_000 });
    assert_eq!(slice.place(65_535, 65_535, 65_535), Sample { x: 65_534, y: -1, wavelength: 699_993 });
    let upside_down = RenderIterator::new_sliced(10, -10, 7, 7);
    assert_eq!(upside_down.place(0, 16_384, 40_000), Sample { x: 5, y: 7, wavelength: 300_000 });
    assert_eq!(upside_down.place(0, 65_535, 0), Sample { x: -10, y: 7, wavelength: 300_000 });
    assert_eq!(wavelength_for(1), 300_006);
}

#[test]
fn draws_stay_in_their_ranges_and_follow_the_seed() {
    let mut rng = StdRng::seed_from_u64(7);
    let mut seen_high = false;
    let mut seen_negative = false;
    for _ in 0..2_000 {
        let unit = get_unit(&mut rng);
        assert!(unit < ONE);
        seen_high |= unit >= ONE / 2;
        let both = get_bi_unit(&mut rng);
        assert!((-65_536..65_536).contains(&both));
        seen_negative |= both < 0;
        let wavelength = get_wavelength(&mut rng);
        assert!((300_000..700_000).contains(&wavelength));
    }
    assert!(seen_high && seen_negative);
    let mut first = StdRng::seed_from_u64(99);
    let mut second = StdRng::seed_from_u64(99);
    for _ in 0..100 {
        assert_eq!(get_unit(&mut first), get_unit(&mut second));
    }
}

#[test]
fn samples_are_drawn_inside_the_slice() {
    let mut rng = StdRng::seed_from_u64(2024);
    let slice = RenderIterator::for_slice(700);
    let mut distinct = std::collections::HashSet::new();
    for _ in 0..500 {
        let sample = slice.render_slice(&mut rng);
        assert!(sample.x >= slice.min_x && sample.x < slice.max_x);
        assert!(sample.y >= slice.min_y && sample.y < slice.max_y);
        assert!(sample.wavelength >= 300_000 && sample.wavelength < 700_000);
        distinct.insert((sample.x, sample.y, sample.wavelength));
    }
    assert!(distinct.len() > 400);
    let mut again = StdRng::seed_from_u64(2024);
    let mut replay = StdRng::seed_from_u64(2024);
    assert_eq!(slice.render_slice(&mut again), slice.render_slice(&mut replay));
}

#[test]
fn draws_are_made_from_random_bits() {
    assert_eq!(unit_for(0), 0);
    assert_eq!(unit_for(65_535), 0);
    assert_eq!(unit_for(65_536), 1);
    assert_eq!(unit_for(0x8000_0000), 32_768);
    assert_eq!(unit_for(u32::MAX), 65_535);
    assert_eq!(bi_unit_for(0), -65_536);
    assert_eq!(bi_unit_for(1), -65_534);
    assert_eq!(bi_unit_for(32_768), 0);
    assert_eq!(bi_unit_for(65_535), 65_534);
}
