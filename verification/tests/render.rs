use rand::rngs::StdRng;
use rand::SeedableRng;
use rtrace::entity::Entity;
use rtrace::geometry::plane::Plane;
use rtrace::geometry::quaternion::Quaternion;
use rtrace::geometry::ray::Ray;
use rtrace::geometry::sphere::Sphere;
use rtrace::geometry::surface::Surface;
use rtrace::geometry::util::{reflect, rotate_towards};
use rtrace::geometry::vec3::Vec3;
use rtrace::material::glass::{BandPassColoredGlassMaterial, GlassMaterial};
use rtrace::material::glossy::GlossyMaterial;
use rtrace::material::diffuse::DiffuseGrayMaterial;
use rtrace::material::spectrum_radiator::SpectrumRadiator;
use rtrace::plotter::Plotter;
use rtrace::ptrandom::get_unit;
use rtrace::scene::{Camera, Scene};
use rtrace::tracer::{rays_per_slice, Encounter, Photon, RenderIterator, Walk, SLICE_COUNT};

const ONE: i32 = 65_536;

enum Matter {
    Mirror,
    Glass,
    Filter(BandPassColoredGlassMaterial),
}

fn at(x: i32, y: i32, z: i32) -> Vec3 {
    Vec3::new(x * ONE, y * ONE, z * ONE)
}

fn room() -> Scene<Matter, SpectrumRadiator> {
    let lamp = SpectrumRadiator::new(300_000, 800_000);
    Scene::new(
        vec![
            Entity::Luminous(Surface::Sphere(Sphere::new(at(0, 0, 0), 3 * ONE)), lamp),
            Entity::Dark(Surface::Plane(Plane::new(at(0, 6, 0), at(0, 1, 0))), Matter::Mirror),
            Entity::Dark(Surface::Sphere(Sphere::new(at(5, 0, 0), ONE)), Matter::Glass),
            Entity::Dark(
                Surface::Sphere(Sphere::new(at(-5, 0, 0), ONE)),
                Matter::Filter(BandPassColoredGlassMaterial::new(300_000, 500_000)),
            ),
        ],
        Camera::new(at(0, -9, 0), Quaternion::new(0, 0, 0, ONE), ONE, 4 * ONE, i32::MAX, 0),
    )
}

fn scatter(matter: &Matter, incoming: Ray, hit: rtrace::geometry::intersection::Intersection, rng: &mut StdRng) -> Ray {
    match matter {
        Matter::Mirror => {
            let straight = DiffuseGrayMaterial::new(ONE as u32).get_next_ray(incoming, hit, Vec3::new(0, 0, ONE));
            GlossyMaterial::new(0).get_next_ray(incoming, hit, straight)
        }
        Matter::Glass => GlassMaterial.get_next_ray(incoming, hit, get_unit(rng)),
        Matter::Filter(glass) => glass.get_next_ray(incoming, hit, get_unit(rng)),
    }
}

fn trace(scene: &Scene<Matter, SpectrumRadiator>, ray: Ray, rng: &mut StdRng) -> (u32, u32) {
    let mut walk = Walk::begin();
    let mut current = ray;
    let mut bounces = 0;
    while !walk.is_over() {
        let encounter = match scene.intersect(&current) {
            None => Encounter::Nothing,
            Some((Entity::Luminous(_, lamp), _)) => {
                Encounter::Luminous { intensity: lamp.get_intensity(current.wavelength) }
            }
            Some((Entity::Dark(_, matter), hit)) => {
                let next = scatter(matter, current, hit, rng);
                current = Ray { position: next.point_at(7), ..next };
                bounces += 1;
                Encounter::Dark { strength: next.strength }
            }
        };
        walk = walk.advance(encounter);
        walk = walk.roulette(get_unit(rng), 60_000);
    }
    (walk.radiance(), bounces)
}

#[test]
fn small_picture_is_rendered_from_end_to_end() {
    let scene = room();
    let mut film = Plotter::new(16, 16);
    let mut bounced = 0;
    let mut lit = 0;
    for slice in (0..SLICE_COUNT).step_by(8) {
        let mut rng = StdRng::seed_from_u64(slice as u64);
        let window = RenderIterator::for_slice(slice);
        for _ in 0..40 {
            let sample = window.render_slice(&mut rng);
            let ray = scene.camera.get_ray(sample.x, sample.y, sample.wavelength, 0, 0);
            let (strength, bounces) = trace(&scene, ray, &mut rng);
            bounced += bounces;
            lit += (strength > 0) as u32;
            film.plot_photon(Photon { x: sample.x, y: sample.y, strength, wavelength: sample.wavelength });
        }
    }
    assert!(lit > 100);
    assert!(bounced > 100);
    let picture = film.tone_map();
    assert_eq!(picture.len(), 256);
    let middle = picture[8 * 16 + 8];
    let corner = picture[0];
    assert!(middle.0 as u32 + middle.1 as u32 + middle.2 as u32 > 100);
    assert!(middle.1 >= corner.1);
    assert!(picture.iter().any(|p| *p != picture[0]));
    assert_eq!(rays_per_slice(40, 16, 16), 10);
}

#[test]
fn render_repeats_with_the_seed() {
    let scene = room();
    let run = |seed: u64| {
        let mut rng = StdRng::seed_from_u64(seed);
        let window = RenderIterator::new_global();
        let mut film = Plotter::new(8, 8);
        for _ in 0..300 {
            let sample = window.render_slice(&mut rng);
            let ray = scene.camera.get_ray(sample.x, sample.y, sample.wavelength, 0, 0);
            let (strength, _) = trace(&scene, ray, &mut rng);
            film.plot_photon(Photon { x: sample.x, y: sample.y, strength, wavelength: sample.wavelength });
        }
        film.tone_map()
    };
    assert_eq!(run(5), run(5));
    assert!(run(5) != run(6));
}

#[test]
fn vectors_are_mirrored_and_carried_by_plain_functions_too() {
    let down = Vec3::new(ONE, -ONE, 0);
    let up = Vec3::new(0, ONE, 0);
    assert_eq!(reflect(down, up), down.reflect(&up));
    assert_eq!(reflect(down, up), Vec3::new(ONE, ONE, 0));
    assert_eq!(rotate_towards(Vec3::new(0, 0, ONE), up), up);
    assert_eq!(rotate_towards(down, up), down.rotate_towards(&up));
}
