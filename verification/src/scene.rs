//! The scene: its things, its camera, and the query for the nearest thing
//! along a ray.

use vstd::prelude::*;
use crate::entity::Entity;
use crate::fixed::{clamp, floor_div};
use crate::geometry::intersection::{
    is_nearest, lemma_nearest_extends, lemma_nearest_is_unique, picks_nearest, stays_nearest,
    Intersection,
};
use crate::geometry::quaternion::Quaternion;
use crate::geometry::ray::Ray;
use crate::geometry::vec3::{fitted, narrowed, Vec3};
use crate::geometry::wide::{lemma_product_within, Triple};

verus! {

/// A scene: things in their order, and a camera.
pub struct Scene<M, R> {
    pub entities: Vec<Entity<M, R>>,
    pub camera: Camera,
}

impl<M, R> View for Scene<M, R> {
    type V = Seq<Entity<M, R>>;

    /// The things of the scene, in their order.
    open spec fn view(&self) -> Seq<Entity<M, R>> {
        self.entities@
    }
}

/// The position of the nearest hit among the outcomes, and `None` where
/// every surface was missed.
pub open spec fn nearest_index(outcomes: Seq<Option<Intersection>>) -> Option<int> {
    if exists|i: int| is_nearest(outcomes, i) {
        Some(choose|i: int| is_nearest(outcomes, i))
    } else {
        None
    }
}

/// A choice that picks the nearest hit is the nearest index.
pub proof fn lemma_choice_is_nearest_index(outcomes: Seq<Option<Intersection>>, chosen: Option<int>)
    requires
        picks_nearest(outcomes, chosen),
    ensures
        nearest_index(outcomes) == chosen,
{
    match chosen {
        Some(i) => {
            let j = choose|j: int| is_nearest(outcomes, j);
            lemma_nearest_is_unique(outcomes, i, j);
        },
        None => {
            assert forall|i: int| !is_nearest(outcomes, i) by {
                if 0 <= i < outcomes.len() {
                    assert(outcomes[i] is None);
                }
            }
        },
    }
}

impl<M, R> Scene<M, R> {
    /// What a ray finds at each thing of the scene, in the order of the
    /// things.
    pub open spec fn outcomes(&self, ray: Ray) -> Seq<Option<Intersection>> {
        Seq::new(self@.len(), |i: int| self@[i].shape().outcome(ray))
    }

    /// A scene of the given things, seen through the given camera.
    pub fn new(entities: Vec<Entity<M, R>>, camera: Camera) -> (scene: Scene<M, R>)
        ensures
            scene@ == entities@,
            scene.camera == camera,
    {
        Scene { entities, camera }
    }

    /// The nearest thing along a ray, with the hit on it: every thing is
    /// tried, and of all hits the nearest wins, the first of them where
    /// several are equally near. `None` exactly where the ray leaves the
    /// scene without a hit.
    pub fn intersect(&self, ray: &Ray) -> (found: Option<(&Entity<M, R>, Intersection)>)
        requires
            ray.direction.is_direction(),
        ensures
            match found {
                Some((entity, hit)) => {
                    &&& nearest_index(self.outcomes(*ray)) matches Some(i)
                    &&& *entity == self@[i]
                    &&& self.outcomes(*ray)[i] == Some(hit)
                    &&& hit.lies_ahead_on(*ray)
                    &&& entity.shape().has_unit_normals() ==> hit.faces(*ray)
                },
                None => nearest_index(self.outcomes(*ray)) is None,
            },
    {
        let ghost outcomes = self.outcomes(*ray);
        let mut chosen: Option<usize> = None;
        let mut best: Option<Intersection> = None;
        let mut at: usize = 0;
        while at < self.entities.len()
            invariant
                at <= self.entities.len(),
                ray.direction.is_direction(),
                outcomes == self.outcomes(*ray),
                picks_nearest(
                    outcomes.take(at as int),
                    match chosen {
                        Some(i) => Some(i as int),
                        None => None,
                    },
                ),
                best == match chosen {
                    Some(i) => outcomes[i as int],
                    None => None,
                },
                chosen matches Some(i) ==> i < at,
                best matches Some(hit) ==> hit.lies_ahead_on(*ray),
                chosen matches Some(i) ==> (self.entities@[i as int].shape().has_unit_normals()
                    ==> best.unwrap().faces(*ray)),
            decreases self.entities.len() - at,
        {
            let next = self.entities[at].surface().intersect(ray);
            proof {
                let grown = outcomes.take(at + 1);
                assert(grown.drop_last() =~= outcomes.take(at as int));
                assert(grown.last() == next);
                lemma_nearest_extends(
                    grown,
                    match chosen {
                        Some(i) => Some(i as int),
                        None => None,
                    },
                );
            }
            if !stays_nearest(&best, &next) {
                best = next;
                chosen = Some(at);
            }
            at += 1;
        }
        proof {
            assert(outcomes.take(at as int) =~= outcomes);
            lemma_choice_is_nearest_index(
                outcomes,
                match chosen {
                    Some(i) => Some(i as int),
                    None => None,
                },
            );
        }
        match chosen {
            Some(i) => match best {
                Some(hit) => Some((&self.entities[i], hit)),
                None => None,
            },
            None => None,
        }
    }

    /// The number of things in the scene.
    pub fn len(&self) -> (count: usize)
        ensures
            count == self@.len(),
    {
        self.entities.len()
    }

    /// Thing `index` of the scene, or `None` where there is no such thing.
    pub fn entity(&self, index: usize) -> (found: Option<&Entity<M, R>>)
        ensures
            index < self@.len() ==> found == Some(&self@[index as int]),
            index >= self@.len() ==> found is None,
    {
        if index < self.entities.len() {
            Some(&self.entities[index])
        } else {
            None
        }
    }
}

/// A camera: where it stands, how it is turned, and its lens.
///
/// `screen_distance` is the distance of the screen from the eye in units of
/// half the screen's width, which is one over the tangent of half the field
/// of view. `focal_distance` is the distance at which the image is sharp.
/// `depth_of_field` divides the lens: the larger it is, the smaller the lens
/// and the sharper the image. `chromatic_aberration` is the share by which
/// the image grows for each 200 nm of wavelength above 580 nm.
#[derive(Clone, Copy, PartialEq, Eq, Debug, Structural)]
pub struct Camera {
    pub position: Vec3,
    pub orientation: Quaternion,
    pub screen_distance: i32,
    pub focal_distance: i32,
    pub depth_of_field: i32,
    pub chromatic_aberration: i32,
}

impl Camera {
    /// Whether the camera can make rays: its screen lies ahead of the eye,
    /// and its lens has a size.
    pub open spec fn wf(self) -> bool {
        self.screen_distance > 0 && self.depth_of_field > 0
    }

    /// The factor, in 65536ths, by which the image is larger at a wavelength
    /// given in picometres than at 580 nm.
    pub open spec fn zoom(self, wavelength: int) -> int {
        65_536 + (wavelength - 580_000) * self.chromatic_aberration / 200_000
    }

    /// The point of the lens, in the camera's own frame, that belongs to the
    /// point `(aperture_x, aperture_z)` of the unit disc.
    pub open spec fn lens_point(self, aperture_x: int, aperture_z: int) -> Triple {
        Triple {
            x: aperture_x * 65_536 / self.depth_of_field as int,
            y: 0,
            z: aperture_z * 65_536 / self.depth_of_field as int,
        }
    }

    /// The point, in the camera's own frame, on which every ray through the
    /// screen point `(x, y)` is focused, for an image grown by `zoom`: the
    /// point where the line from the eye through the screen point reaches the
    /// focal distance.
    pub open spec fn focus_point(self, x: int, y: int, zoom: int) -> Triple {
        Triple {
            x: (x * zoom / 65_536) * self.focal_distance / self.screen_distance as int,
            y: self.focal_distance as int,
            z: -((y * zoom / 65_536) * self.focal_distance / self.screen_distance as int),
        }
    }

    /// The ray through the screen point `(x, y)` for an image grown by `zoom`
    /// that leaves the lens at `lens`: it starts at the camera's position
    /// moved by the turned lens point, and points, with unit length, along
    /// the turned line from the lens point to the focus point. It has no
    /// wavelength yet and full strength.
    pub open spec fn screen_ray(self, x: int, y: int, zoom: int, lens: Triple) -> Ray {
        let aim = fitted(self.focus_point(x, y, zoom).minus(lens));
        Ray {
            position: fitted(self.position@.plus(fitted(lens).rotated(self.orientation)@)),
            direction: narrowed(aim.rotated(self.orientation)@.unit()),
            wavelength: 0,
            strength: 65_536,
        }
    }

    /// A camera.
    pub fn new(
        position: Vec3,
        orientation: Quaternion,
        screen_distance: i32,
        focal_distance: i32,
        depth_of_field: i32,
        chromatic_aberration: i32,
    ) -> (camera: Camera)
        ensures
            camera == (Camera {
                position,
                orientation,
                screen_distance,
                focal_distance,
                depth_of_field,
                chromatic_aberration,
            }),
    {
        Camera {
            position,
            orientation,
            screen_distance,
            focal_distance,
            depth_of_field,
            chromatic_aberration,
        }
    }

    /// The ray through a screen point for a given zoom and lens point.
    fn get_screen_ray(&self, x: i32, y: i32, chroma_factor: i64, lens_x: i64, lens_z: i64) -> (ray:
        Ray)
        requires
            self.wf(),
            -0x1_0000_0000_0000 <= chroma_factor <= 0x1_0000_0000_0000,
            -0x8000_0000_0000 <= lens_x <= 0x8000_0000_0000,
            -0x8000_0000_0000 <= lens_z <= 0x8000_0000_0000,
        ensures
            ray == self.screen_ray(
                x as int,
                y as int,
                chroma_factor as int,
                Triple { x: lens_x as int, y: 0, z: lens_z as int },
            ),
            ray.direction.is_direction(),
    {
        proof {
            lemma_product_within(x as int, chroma_factor as int, 0x8000_0000, 0x1_0000_0000_0000);
            lemma_product_within(y as int, chroma_factor as int, 0x8000_0000, 0x1_0000_0000_0000);
        }
        let xs: i128 = floor_div(x as i128 * chroma_factor as i128, 65_536);
        let ys: i128 = floor_div(y as i128 * chroma_factor as i128, 65_536);
        proof {
            lemma_product_within(xs as int, self.focal_distance as int, 0x8000_0000_0000_0000, 0x8000_0000);
            lemma_product_within(ys as int, self.focal_distance as int, 0x8000_0000_0000_0000, 0x8000_0000);
        }
        let fx: i128 = floor_div(xs * self.focal_distance as i128, self.screen_distance as i128);
        let fz: i128 = -floor_div(ys * self.focal_distance as i128, self.screen_distance as i128);
        let aim = Vec3 {
            x: clamp(fx - lens_x as i128),
            y: clamp(self.focal_distance as i128),
            z: clamp(fz - lens_z as i128),
        };
        let lens = Vec3 { x: clamp(lens_x as i128), y: 0, z: clamp(lens_z as i128) };
        Ray::new(
            self.position.add(&lens.rotate(&self.orientation)),
            aim.rotate(&self.orientation).normalize(),
            0,
            65_536,
        )
    }

    /// The ray on which light of a wavelength, given in picometres, reaches
    /// the screen point `(x, y)`, both between `-ONE` and `ONE`, through the
    /// point of the lens that belongs to the point `(aperture_x, aperture_z)`
    /// of the unit disc. The caller draws that point at random: a uniform
    /// angle, and a uniform radius.
    pub fn get_ray(&self, x: i32, y: i32, wavelength: u32, aperture_x: i32, aperture_z: i32) -> (ray:
        Ray)
        requires
            self.wf(),
        ensures
            ray == (Ray {
                wavelength,
                ..self.screen_ray(
                    x as int,
                    y as int,
                    self.zoom(wavelength as int),
                    self.lens_point(aperture_x as int, aperture_z as int),
                )
            }),
            ray.direction.is_direction(),
    {
        proof {
            lemma_product_within(
                wavelength as int - 580_000,
                self.chromatic_aberration as int,
                0x1_0000_0000,
                0x8000_0000,
            );
        }
        let shift: i128 = floor_div(
            (wavelength as i128 - 580_000) * self.chromatic_aberration as i128,
            200_000,
        );
        let chroma_zoom: i128 = 65_536 + shift;
        let lens_x: i128 = floor_div(aperture_x as i128 * 65_536, self.depth_of_field as i128);
        let lens_z: i128 = floor_div(aperture_z as i128 * 65_536, self.depth_of_field as i128);
        proof {
            let d = self.depth_of_field as int;
            assert(-0x8000_0000_0000 <= (aperture_x * 65_536) / d <= 0x8000_0000_0000)
                by (nonlinear_arith)
                requires
                    d >= 1,
                    -0x8000_0000 <= aperture_x <= 0x8000_0000,
            ;
            assert(-0x8000_0000_0000 <= (aperture_z * 65_536) / d <= 0x8000_0000_0000)
                by (nonlinear_arith)
                requires
                    d >= 1,
                    -0x8000_0000 <= aperture_z <= 0x8000_0000,
            ;
        }
        let ray = self.get_screen_ray(x, y, chroma_zoom as i64, lens_x as i64, lens_z as i64);
        Ray { wavelength, ..ray }
    }
}

} // verus!
