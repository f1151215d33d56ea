//! The walk of one light path from the camera into the scene, as a state
//! machine, and the choice of where on the screen each path starts.
//!
//! The walk owns what is counted: the throughput a path has left, its chance of
//! surviving the next round of Russian roulette, and the radiance it brings
//! home. Finding what a ray meets and bending it is geometry and is done by the
//! caller, which reports each encounter back to the walk.

use vstd::prelude::*;
use rand::rngs::StdRng;
use crate::geometry::ray::Ray;
use crate::ptrandom::get_unit;
use crate::units::{scale, scaled, ONE, SCREEN_MAX, SCREEN_MIN};

verus! {

/// Number of slices into which the screen is cut for rendering in parallel.
pub const SLICE_COUNT: u32 = 1_024;

/// Height of one slice, in 65536ths of half the screen.
pub const SLICE_HEIGHT: i32 = 128;

/// The distance, in 65536ths, by which a scattered ray is moved off the
/// surface that it leaves, so that it does not hit that surface again at
/// once: a little more than a ten-thousandth.
pub const STEP_OFF: u64 = 7;

/// The light that one finished path contributes: where on the screen it
/// started, its wavelength in picometres and its strength in 65536ths.
#[derive(Clone, Copy, PartialEq, Eq, Debug, Structural)]
pub struct Photon {
    pub x: i32,
    pub y: i32,
    pub strength: u32,
    pub wavelength: u32,
}

/// Where a path starts: a point of the screen and a wavelength in picometres.
#[derive(Clone, Copy, PartialEq, Eq, Debug, Structural)]
pub struct Sample {
    pub x: i32,
    pub y: i32,
    pub wavelength: u32,
}

/// What the nearest thing along a ray turned out to be.
#[derive(Clone, Copy, PartialEq, Eq, Debug, Structural)]
pub enum Encounter {
    /// The ray left the scene without meeting anything.
    Nothing,
    /// The ray met a light, which emits with this intensity at the ray's
    /// wavelength.
    Luminous { intensity: u32 },
    /// The ray met a surface, whose material sent it on with this strength.
    Dark { strength: u32 },
}

/// The state of one path.
#[derive(Clone, Copy, PartialEq, Eq, Debug, Structural)]
pub enum Walk {
    /// A ray is under way. `throughput` is the share of light that the path
    /// still carries; `survival` is its chance factor for the next roulette.
    Tracing { throughput: u32, survival: u32 },
    /// The ray was scattered by a surface and awaits the roulette.
    HitSurface { throughput: u32, survival: u32 },
    /// The path reached a light and ends with this radiance.
    HitLight { radiance: u32 },
    /// The path left the scene and ends dark.
    Escaped,
    /// The roulette ended the path; it ends dark.
    RouletteKilled,
}

impl Walk {
    /// The state in which every path starts: full throughput, full chance.
    pub open spec fn begun() -> Walk {
        Walk::Tracing { throughput: 65_536, survival: 65_536 }
    }

    /// Whether the path is over.
    pub open spec fn ended(self) -> bool {
        self is HitLight || self is Escaped || self is RouletteKilled
    }

    /// The radiance that the path contributes: what it carried into a light,
    /// and nothing in any other state.
    pub open spec fn yielded(self) -> int {
        match self {
            Walk::HitLight { radiance } => radiance as int,
            _ => 0,
        }
    }

    /// The state after a ray under way has met `encounter`: at a surface the
    /// throughput is multiplied by the scattered strength and the survival
    /// chance keeps 96 hundredths of itself. In every other state an encounter
    /// changes nothing.
    pub open spec fn advanced(self, encounter: Encounter) -> Walk {
        match self {
            Walk::Tracing { throughput, survival } => match encounter {
                Encounter::Nothing => Walk::Escaped,
                Encounter::Luminous { intensity } => Walk::HitLight {
                    radiance: scaled(throughput as int, intensity as int) as u32,
                },
                Encounter::Dark { strength } => Walk::HitSurface {
                    throughput: scaled(throughput as int, strength as int) as u32,
                    survival: (survival * 96 / 100) as u32,
                },
            },
            _ => self,
        }
    }

    /// Whether the roulette ends a path: `sample` is a uniform draw below
    /// `ONE`, and `vitality` is one minus the negative exponential of twenty
    /// times the path's throughput, in 65536ths, as the caller has evaluated
    /// it. The path dies where 85 hundredths of the sample exceed the survival
    /// chance times the vitality, so that a path that has lost most of its
    /// light is the likelier to die. A path that lives keeps its throughput
    /// as it is.
    pub open spec fn doomed(survival: int, sample: int, vitality: int) -> bool {
        sample * 85 * 65_536 > survival * vitality * 100
    }

    /// The state after the roulette has been played on a scattered path. In
    /// every other state the roulette changes nothing.
    pub open spec fn gambled(self, sample: u32, vitality: u32) -> Walk {
        match self {
            Walk::HitSurface { throughput, survival } => if Self::doomed(
                survival as int,
                sample as int,
                vitality as int,
            ) {
                Walk::RouletteKilled
            } else {
                Walk::Tracing { throughput, survival }
            },
            _ => self,
        }
    }

    /// Starts a path.
    pub fn begin() -> (walk: Walk)
        ensures
            walk == Walk::begun(),
    {
        Walk::Tracing { throughput: ONE, survival: ONE }
    }

    /// Tells whether the path is over.
    pub fn is_over(&self) -> (over: bool)
        ensures
            over == self.ended(),
    {
        match self {
            Walk::HitLight { .. } => true,
            Walk::Escaped => true,
            Walk::RouletteKilled => true,
            _ => false,
        }
    }

    /// The radiance that the path contributes in its present state.
    pub fn radiance(&self) -> (radiance: u32)
        ensures
            radiance == self.yielded(),
    {
        match self {
            Walk::HitLight { radiance } => *radiance,
            _ => 0,
        }
    }

    /// Reports to a path under way what its ray has met. Meeting nothing ends
    /// the path dark; meeting a light ends it with the throughput times the
    /// light's intensity; meeting a surface multiplies the throughput by the
    /// scattered strength, lets the survival chance decay, and leaves the path
    /// waiting for the roulette.
    pub fn advance(self, encounter: Encounter) -> (next: Walk)
        ensures
            next == self.advanced(encounter),
    {
        match self {
            Walk::Tracing { throughput, survival } => match encounter {
                Encounter::Nothing => Walk::Escaped,
                Encounter::Luminous { intensity } => Walk::HitLight {
                    radiance: scale(throughput, intensity),
                },
                Encounter::Dark { strength } => {
                    let decayed: u64 = survival as u64 * 96 / 100;
                    Walk::HitSurface {
                        throughput: scale(throughput, strength),
                        survival: decayed as u32,
                    }
                },
            },
            _ => self,
        }
    }

    /// Plays Russian roulette on a scattered path: the path either dies or is
    /// under way again with what it had.
    pub fn roulette(self, sample: u32, vitality: u32) -> (next: Walk)
        ensures
            next == self.gambled(sample, vitality),
    {
        match self {
            Walk::HitSurface { throughput, survival } => {
                let against: u64 = sample as u64 * 85 * 65_536;
                assert(0 <= survival * vitality <= 0xFFFF_FFFF * 0xFFFF_FFFF) by (nonlinear_arith)
                    requires
                        0 <= survival <= 0xFFFF_FFFF,
                        0 <= vitality <= 0xFFFF_FFFF,
                ;
                let chance: u128 = survival as u128 * vitality as u128 * 100;
                if against as u128 > chance {
                    Walk::RouletteKilled
                } else {
                    Walk::Tracing { throughput, survival }
                }
            },
            _ => self,
        }
    }
}

/// Moves a scattered ray off the surface that it leaves: its origin goes
/// `STEP_OFF` along its direction, and all else stays.
pub fn step_off(ray: Ray) -> (moved: Ray)
    ensures
        moved == (Ray { position: ray.at(7), ..ray }),
{
    Ray { position: ray.point_at(STEP_OFF), ..ray }
}

/// A finished path stays as it is, whatever is reported to it.
pub proof fn lemma_ended_walk_rests(walk: Walk, encounter: Encounter, sample: u32, vitality: u32)
    requires
        walk.ended(),
    ensures
        walk.advanced(encounter) == walk,
        walk.gambled(sample, vitality) == walk,
{
}

/// In a scene without dark surfaces no path loops: whatever its first ray
/// meets, the path is over at once. It brings home exactly the light's
/// intensity where it met a light, and nothing where it left the scene.
pub proof fn lemma_lights_alone_end_every_walk(encounter: Encounter)
    requires
        !(encounter is Dark),
    ensures
        Walk::begun().advanced(encounter).ended(),
        encounter is Nothing ==> Walk::begun().advanced(encounter).yielded() == 0,
        encounter matches Encounter::Luminous { intensity } ==> Walk::begun().advanced(
            encounter,
        ).yielded() == intensity,
{
}

/// A path only ever ends dark or at a light, and a path that ends dark
/// contributes nothing.
pub proof fn lemma_dark_ends_yield_nothing(walk: Walk)
    ensures
        !(walk is HitLight) ==> walk.yielded() == 0,
{
}

/// The point between `low` and `high` that belongs to a draw below `ONE`:
/// `low` for the draw 0, and never quite `high`.
pub open spec fn between(low: int, high: int, unit: int) -> int {
    low + unit * (high - low) / 65_536
}

fn interpolate(low: i32, high: i32, unit: u32) -> (point: i32)
    requires
        unit < 65_536,
    ensures
        point == between(low as int, high as int, unit as int),
        low <= high ==> low <= point <= high,
        low < high ==> point < high,
        high <= low ==> high <= point <= low,
{
    if high >= low {
        let span: i64 = high as i64 - low as i64;
        assert(0 <= unit * span <= 65_535 * span && unit * span == unit * (high - low))
            by (nonlinear_arith)
            requires
                0 <= unit <= 65_535,
                0 <= span,
                span == high - low,
        ;
        let step: i64 = unit as i64 * span / 65_536;
        (low as i64 + step) as i32
    } else {
        let span: i64 = low as i64 - high as i64;
        assert(0 <= unit * span <= 65_535 * span && unit * (high - low) == -(unit * span))
            by (nonlinear_arith)
            requires
                0 <= unit <= 65_535,
                0 <= span,
                span == low - high,
        ;
        let step: i64 = (unit as i64 * span + 65_535) / 65_536;
        (low as i64 - step) as i32
    }
}

/// The window of the screen from which one renderer draws its samples.
#[derive(Clone, Copy, PartialEq, Eq, Debug, Structural)]
pub struct RenderIterator {
    pub min_x: i32,
    pub max_x: i32,
    pub min_y: i32,
    pub max_y: i32,
}

impl RenderIterator {
    /// The sample that belongs to three draws below `ONE`: the first chooses
    /// the wavelength, the second the place between the window's left and
    /// right edge, the third the place between its lower and upper edge.
    pub open spec fn placed(self, wavelength_unit: int, x_unit: int, y_unit: int) -> Sample {
        Sample {
            x: between(self.min_x as int, self.max_x as int, x_unit) as i32,
            y: between(self.min_y as int, self.max_y as int, y_unit) as i32,
            wavelength: crate::ptrandom::wavelength_of(wavelength_unit) as u32,
        }
    }

    /// The window of slice `index`, where the slices are counted from the lower
    /// edge of the screen: the full width, and 128 steps of height.
    pub open spec fn slice_window(index: int) -> RenderIterator {
        RenderIterator {
            min_x: SCREEN_MIN,
            max_x: SCREEN_MAX,
            min_y: (-65_536 + 128 * index) as i32,
            max_y: (-65_536 + 128 * (index + 1)) as i32,
        }
    }

    /// A renderer for the whole screen.
    pub fn new_global() -> (all: RenderIterator)
        ensures
            all == (RenderIterator {
                min_x: SCREEN_MIN,
                max_x: SCREEN_MAX,
                min_y: SCREEN_MIN,
                max_y: SCREEN_MAX,
            }),
    {
        RenderIterator::new_sliced(SCREEN_MIN, SCREEN_MAX, SCREEN_MIN, SCREEN_MAX)
    }

    /// A renderer for the window between the given edges.
    pub fn new_sliced(min_x: i32, max_x: i32, min_y: i32, max_y: i32) -> (window: RenderIterator)
        ensures
            window == (RenderIterator { min_x, max_x, min_y, max_y }),
    {
        RenderIterator { min_x, max_x, min_y, max_y }
    }

    /// A renderer for one of the `SLICE_COUNT` slices that tile the screen.
    /// Each slice starts where the one before it ends; the first starts at the
    /// lower edge of the screen and the last ends at its upper edge.
    pub fn for_slice(index: u32) -> (window: RenderIterator)
        requires
            index < SLICE_COUNT,
        ensures
            window == Self::slice_window(index as int),
            index == 0 ==> window.min_y == SCREEN_MIN,
            index > 0 ==> window.min_y == Self::slice_window(index - 1).max_y,
            index == SLICE_COUNT - 1 ==> window.max_y == SCREEN_MAX,
            window.max_y - window.min_y == SLICE_HEIGHT,
    {
        let low: i32 = SCREEN_MIN + SLICE_HEIGHT * index as i32;
        RenderIterator::new_sliced(SCREEN_MIN, SCREEN_MAX, low, low + SLICE_HEIGHT)
    }

    /// Places a sample inside the window from three draws below `ONE`.
    pub fn place(&self, wavelength_unit: u32, x_unit: u32, y_unit: u32) -> (sample: Sample)
        requires
            wavelength_unit < 65_536,
            x_unit < 65_536,
            y_unit < 65_536,
        ensures
            sample == self.placed(wavelength_unit as int, x_unit as int, y_unit as int),
            self.holds(sample),
    {
        Sample {
            x: interpolate(self.min_x, self.max_x, x_unit),
            y: interpolate(self.min_y, self.max_y, y_unit),
            wavelength: crate::ptrandom::wavelength_for(wavelength_unit),
        }
    }

    /// Whether a sample lies inside the window and between 300 nm and 700 nm.
    /// The window takes in its lower and left edge and leaves out the others,
    /// but for a window without extent, which holds its one line.
    pub open spec fn holds(self, sample: Sample) -> bool {
        &&& 300_000 <= sample.wavelength < 700_000
        &&& Self::spans(self.min_x as int, self.max_x as int, sample.x as int)
        &&& Self::spans(self.min_y as int, self.max_y as int, sample.y as int)
    }

    /// Whether `point` lies between the edges `low` and `high`, the edge `low`
    /// taken in and the edge `high` left out where the two differ.
    pub open spec fn spans(low: int, high: int, point: int) -> bool {
        if low < high {
            low <= point < high
        } else if high < low {
            high <= point <= low
        } else {
            point == low
        }
    }

    /// Draws the start of the next path: a wavelength, then a place between
    /// the left and right edge, then a place between the lower and upper edge,
    /// each from one uniform draw.
    pub fn render_slice(&self, rng: &mut StdRng) -> (sample: Sample)
        ensures
            self.holds(sample),
            exists|w: int, x: int, y: int|
                0 <= w < 65_536 && 0 <= x < 65_536 && 0 <= y < 65_536 && sample == self.placed(
                    w,
                    x,
                    y,
                ),
    {
        let wavelength_unit: u32 = get_unit(rng);
        let x_unit: u32 = get_unit(rng);
        let y_unit: u32 = get_unit(rng);
        let sample = self.place(wavelength_unit, x_unit, y_unit);
        assert(sample == self.placed(wavelength_unit as int, x_unit as int, y_unit as int));
        sample
    }
}

/// Number of paths that each slice traces in one pass, so that the slices
/// together trace `rays_per_pixel` paths for every pixel of the film, rounded
/// down to a whole number per slice.
pub fn rays_per_slice(rays_per_pixel: u32, width: u16, height: u16) -> (rays: u64)
    ensures
        rays == rays_per_pixel * width * height / 1_024,
{
    assert(0 <= width * height <= 65_535 * 65_535) by (nonlinear_arith)
        requires
            0 <= width <= 65_535,
            0 <= height <= 65_535,
    ;
    let pixels: u64 = width as u64 * height as u64;
    assert(0 <= rays_per_pixel * pixels <= 0xFFFF_FFFF * (65_535 * 65_535)) by (nonlinear_arith)
        requires
            0 <= rays_per_pixel <= 0xFFFF_FFFF,
            0 <= pixels <= 65_535 * 65_535,
    ;
    assert(rays_per_pixel * pixels == rays_per_pixel * width * height) by (nonlinear_arith)
        requires
            pixels == width * height,
    ;
    rays_per_pixel as u64 * pixels / 1_024
}

} // verus!
