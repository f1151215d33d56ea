use rtrace::gamma::quantize;
use rtrace::plotter::Plotter;
use rtrace::spectrum::Cie;
use rtrace::tracer::Photon;

const ONE: i32 = 65_536;

fn cie(x: u64, y: u64, z: u64) -> Cie {
    Cie { x, y, z }
}

fn dark() -> Cie {
    cie(0, 0, 0)
}

fn green(x: i32, y: i32, strength: u32) -> Photon {
    Photon { x, y, strength, wavelength: 555_000 }
}

fn pixels(film: &Plotter) -> Vec<Cie> {
    let mut all = Vec::new();
    for row in 0..film.height() {
        for column in 0..film.width() {
            all.push(film.pixel(column, row).unwrap());
        }
    }
    all
}

fn total(film: &Plotter) -> (u128, u128, u128) {
    pixels(film).iter().fold((0, 0, 0), |sum, p| {
        (sum.0 + p.x as u128, sum.1 + p.y as u128, sum.2 + p.z as u128)
    })
}

#[test]
fn new_film_is_dark_and_of_the_given_size() {
    let film = Plotter::new(4, 3);
    assert_eq!(film.width(), 4);
    assert_eq!(film.height(), 3);
    assert_eq!(pixels(&film), vec![dark(); 12]);
    assert_eq!(film.pixel(4, 0), None);
    assert_eq!(film.pixel(0, 3), None);
    assert_eq!(Plotter::new(0, 7).tone_map().len(), 0);
}

#[test]
fn photon_in_the_middle_of_a_pixel_lights_that_pixel_alone() {
    let mut film = Plotter::new(3, 3);
    film.plot_photon(green(0, 0, ONE as u32));
    let lit = cie(512_050 * 65_536, 1_000_000 * 65_536, 5_750 * 65_536);
    for row in 0..3 {
        for column in 0..3 {
            let expected = if (column, row) == (1, 1) { lit } else { dark() };
            assert_eq!(film.pixel(column, row), Some(expected));
        }
    }
}

#[test]
fn photon_between_pixels_is_shared_by_four() {
    let mut film = Plotter::new(3, 3);
    film.plot_photon(green(ONE / 4, -ONE / 8, ONE as u32 / 2));
    assert_eq!(film.pixel(1, 0), Some(cie(1_573_017_600, 3_072_000_000, 17_664_000)));
    assert_eq!(film.pixel(2, 0), Some(cie(524_339_200, 1_024_000_000, 5_888_000)));
    assert_eq!(film.pixel(1, 1), Some(cie(11_011_123_200, 21_504_000_000, 123_648_000)));
    assert_eq!(film.pixel(2, 1), Some(cie(3_670_374_400, 7_168_000_000, 41_216_000)));
    assert_eq!(film.pixel(0, 0), Some(dark()));
    assert_eq!(film.pixel(1, 2), Some(dark()));
    assert_eq!(total(&film), (16_778_854_400, 32_768_000_000, 188_416_000));
}

#[test]
fn photon_loses_no_light_wherever_it_falls() {
    let places = [(100, 200), (-ONE, ONE), (ONE, -ONE), (12_345, -54_321), (i32::MAX, i32::MIN), (-70_000, 3)];
    for (x, y) in places {
        let mut film = Plotter::new(4, 2);
        film.plot_photon(green(x, y, 3 * ONE as u32));
        assert_eq!(
            total(&film),
            (512_050 * 3 * 65_536, 1_000_000 * 3 * 65_536, 5_750 * 3 * 65_536)
        );
    }
}

#[test]
fn photon_beyond_the_film_lands_on_its_edge() {
    let mut film = Plotter::new(4, 2);
    film.plot_photon(green(-ONE, ONE, 1));
    assert_eq!(film.pixel(0, 1), Some(cie(512_050, 1_000_000, 5_750)));
    film.plot_photon(green(3 * ONE, -3 * ONE, 1));
    assert_eq!(film.pixel(3, 0), Some(cie(512_050, 1_000_000, 5_750)));
    assert_eq!(total(&film), (1_024_100, 2_000_000, 11_500));
}

#[test]
fn photon_without_light_changes_nothing() {
    let mut film = Plotter::new(2, 2);
    film.plot_photon(green(0, 0, 0));
    film.plot_photon(Photon { x: 0, y: 0, strength: ONE as u32, wavelength: 300_000 });
    film.plot_photon(Photon { x: 0, y: 0, strength: ONE as u32, wavelength: 800_000 });
    assert_eq!(pixels(&film), vec![dark(); 4]);
    let mut none = Plotter::new(0, 0);
    none.plot_photon(green(0, 0, ONE as u32));
    assert_eq!(none.tone_map().len(), 0);
}

#[test]
fn full_pixel_stays_full() {
    let mut film = Plotter::new(1, 1);
    for _ in 0..5_000 {
        film.plot_photon(green(0, 0, u32::MAX));
    }
    let lit = film.pixel(0, 0).unwrap();
    assert_eq!(lit.y, u64::MAX);
    assert_eq!(lit.x, 5_000 * 512_050 * u32::MAX as u64);
    let doubled = Plotter::new_merged(&film, &film);
    assert_eq!(doubled.pixel(0, 0).unwrap().y, u64::MAX);
    assert_eq!(doubled.pixel(0, 0).unwrap().x, u64::MAX);
    assert_eq!(doubled.pixel(0, 0).unwrap().z, 2 * 5_000 * 5_750 * u32::MAX as u64);
}

fn sample_film(seed: i32) -> Plotter {
    let mut film = Plotter::new(3, 2);
    film.plot_photon(green(seed * 1_000, -seed * 700, ONE as u32));
    film.plot_photon(Photon { x: -seed * 5_000, y: seed * 20, strength: 40_000, wavelength: 450_000 });
    film
}

#[test]
fn merge_adds_pixel_by_pixel() {
    let a = sample_film(3);
    let b = sample_film(11);
    let merged = Plotter::new_merged(&a, &b);
    let expected: Vec<Cie> = pixels(&a)
        .iter()
        .zip(pixels(&b).iter())
        .map(|(p, q)| cie(p.x + q.x, p.y + q.y, p.z + q.z))
        .collect();
    assert_eq!(pixels(&merged), expected);
    let mut grown = sample_film(3);
    grown.merge(sample_film(11));
    assert_eq!(pixels(&grown), expected);
    assert_eq!((grown.width(), grown.height()), (3, 2));
}

#[test]
fn merge_is_commutative_and_associative_and_dark_is_its_identity() {
    let a = sample_film(3);
    let b = sample_film(11);
    let c = sample_film(-7);
    assert_eq!(pixels(&Plotter::new_merged(&a, &b)), pixels(&Plotter::new_merged(&b, &a)));
    let left = Plotter::new_merged(&Plotter::new_merged(&a, &b), &c);
    let right = Plotter::new_merged(&a, &Plotter::new_merged(&b, &c));
    assert_eq!(pixels(&left), pixels(&right));
    assert_eq!(pixels(&Plotter::new_merged(&a, &Plotter::new(3, 2))), pixels(&a));
    assert_eq!(pixels(&Plotter::new_merged(&Plotter::new(3, 2), &a)), pixels(&a));
}

#[test]
fn dark_film_gives_a_black_picture() {
    assert_eq!(Plotter::new(2, 2).tone_map(), vec![(0, 0, 0); 4]);
    assert_eq!(Plotter::new(5, 3).tone_map().len(), 15);
}

#[test]
fn picture_shows_each_pixel_against_the_exposure() {
    let mut film = Plotter::new(2, 2);
    film.plot_photon(green(-ONE, -ONE, ONE as u32 / 2));
    assert_eq!(film.pixel(0, 0), Some(cie(16_778_854_400, 32_768_000_000, 188_416_000)));
    assert_eq!(film.tone_map(), vec![(99, 255, 0), (0, 0, 0), (0, 0, 0), (0, 0, 0)]);
    let mut even = Plotter::new(2, 2);
    for (x, y) in [(-ONE, -ONE), (ONE, -ONE), (-ONE, ONE), (ONE, ONE)] {
        even.plot_photon(green(x, y, ONE as u32 / 2));
    }
    assert_eq!(even.tone_map(), vec![(82, 254, 0); 4]);
}

#[test]
fn picture_has_one_colour_for_each_wavelength() {
    let mut film = Plotter::new(2, 2);
    film.plot_photon(Photon { x: -ONE, y: -ONE, strength: ONE as u32, wavelength: 555_000 });
    film.plot_photon(Photon { x: ONE, y: -ONE, strength: ONE as u32, wavelength: 450_000 });
    film.plot_photon(Photon { x: -ONE, y: ONE, strength: ONE as u32, wavelength: 650_000 });
    assert_eq!(film.tone_map(), vec![(98, 255, 0), (108, 0, 255), (228, 0, 0), (0, 0, 0)]);
}

#[test]
fn light_is_cut_into_bytes_along_the_transfer_curve() {
    let expected = [
        (-5, 0),
        (0, 0),
        (1, 0),
        (100, 5),
        (205, 10),
        (206, 10),
        (1_000, 33),
        (12_000, 118),
        (32_768, 187),
        (65_535, 254),
        (65_536, 255),
        (99_999, 255),
    ];
    for (light, byte) in expected {
        assert_eq!(quantize(light), byte);
    }
    let mut last = 0;
    for light in 0..=65_536 {
        let byte = quantize(light);
        assert!(byte >= last);
        let exact = light as f64 / 65_536.0;
        let curve = if exact < 0.0031308 { 12.92 * exact } else { 1.055 * exact.powf(1.0 / 2.4) - 0.055 };
        assert!((byte as f64 - curve * 255.0).abs() <= 1.0);
        last = byte;
    }
}
