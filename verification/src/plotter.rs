//! The film: one tristimulus accumulator for each pixel, filled photon by
//! photon and merged film by film.
//!
//! Energy is counted in whole steps, one step being a millionth of a unit
//! response at a strength of `1 / ONE`. Sums are exact, so that it does not
//! matter in which order photons arrive or films are merged. An accumulator
//! that is full stays full.

use vstd::prelude::*;
use crate::fixed::{floor_div, isqrt, sqrt_floor};
use crate::gamma::{encoded, quantize};
use crate::spectrum::{cie_response, wavelength_to_cie, Cie};
use crate::tracer::Photon;

verus! {

/// A sum of energies, held at `u64::MAX` where it would be larger.
pub open spec fn capped(sum: int) -> u64 {
    if sum > u64::MAX {
        u64::MAX
    } else {
        sum as u64
    }
}

/// The sum of two tristimulus values, channel by channel.
pub open spec fn added(a: Cie, b: Cie) -> Cie {
    Cie { x: capped(a.x + b.x), y: capped(a.y + b.y), z: capped(a.z + b.z) }
}

/// The pixels of two films of one size, added pixel by pixel.
pub open spec fn merged(a: Seq<Cie>, b: Seq<Cie>) -> Seq<Cie> {
    Seq::new(a.len(), |i: int| added(a[i], b[i]))
}

/// The pixels of a film of `n` pixels on which no light has fallen.
pub open spec fn dark(n: nat) -> Seq<Cie> {
    Seq::new(n, |i: int| Cie { x: 0, y: 0, z: 0 })
}

/// The place of screen coordinate `x` across a film of `width` columns,
/// counted from the middle of the first column in 131072ths of a column. The
/// left edge of the screen lies on the first column, the right edge on the
/// last, and whatever lies beyond an edge is moved onto it.
pub open spec fn film_x(width: int, x: int) -> int {
    let raw = (x + 65_536) * (width - 1);
    let span = (width - 1) * 131_072;
    if raw < 0 {
        0
    } else if raw > span {
        span
    } else {
        raw
    }
}

/// Number of steps into which the height of one row is divided, for a film of
/// `height` rows.
pub open spec fn row_steps(height: int) -> int {
    131_072 * height
}

/// The place of screen coordinate `y` down a film of `width` by `height`
/// pixels, counted from the middle of the first row in steps of which each row
/// has `row_steps(height)`. One unit of `y` is as long on the film as one unit
/// of `x`: `y` is first stretched by the film's aspect ratio, width over
/// height. Whatever then lies beyond an edge of the film is moved onto it.
pub open spec fn film_y(width: int, height: int, y: int) -> int {
    let raw = (y * width + 65_536 * height) * (height - 1);
    let span = (height - 1) * row_steps(height);
    if raw < 0 {
        0
    } else if raw > span {
        span
    } else {
        raw
    }
}

/// The part of an energy that falls to a pixel with the horizontal weight
/// `wx` out of 131072 and the vertical weight `wy` out of `dy`, rounded down.
pub open spec fn part(energy: int, wx: int, wy: int, dy: int) -> int {
    energy * wx * wy / (131_072 * dy)
}

/// `part`, channel by channel.
pub open spec fn parted(energy: Cie, wx: int, wy: int, dy: int) -> Cie {
    Cie {
        x: part(energy.x as int, wx, wy, dy) as u64,
        y: part(energy.y as int, wx, wy, dy) as u64,
        z: part(energy.z as int, wx, wy, dy) as u64,
    }
}

/// What is left of an energy when three parts of it are taken away.
pub open spec fn rest(energy: Cie, a: Cie, b: Cie, c: Cie) -> Cie {
    Cie {
        x: (energy.x - a.x - b.x - c.x) as u64,
        y: (energy.y - a.y - b.y - c.y) as u64,
        z: (energy.z - a.z - b.z - c.z) as u64,
    }
}

/// The pixels after `energy` has been added to pixel `at`. A place outside the
/// film receives nothing.
pub open spec fn deposited(film: Seq<Cie>, at: int, energy: Cie) -> Seq<Cie> {
    if 0 <= at < film.len() {
        film.update(at, added(film[at], energy))
    } else {
        film
    }
}

/// The four parts into which an energy is split at the place `(px, py)` of a
/// film with `height` rows: for the pixel to the right, the pixel below, the
/// pixel across, and, first, the pixel at the place itself. The three
/// neighbours get their bilinear weight of the energy, rounded down, and the
/// pixel at the place gets all the rest, so that nothing is lost.
pub open spec fn shares(energy: Cie, px: int, py: int, height: int) -> (Cie, Cie, Cie, Cie) {
    let dy = row_steps(height);
    let fx = px % 131_072;
    let fy = py % dy;
    let right = parted(energy, fx, dy - fy, dy);
    let below = parted(energy, 131_072 - fx, fy, dy);
    let across = parted(energy, fx, fy, dy);
    (rest(energy, right, below, across), right, below, across)
}

/// The pixels of a film of `width` by `height` pixels after `energy` has been
/// splatted at the screen point `(x, y)`: bilinearly over the pixel at whose
/// middle or to whose lower right the point lies, and that pixel's right,
/// lower and opposite neighbour. An empty film stays empty.
pub open spec fn splatted(film: Seq<Cie>, width: int, height: int, x: int, y: int, energy: Cie) -> Seq<Cie> {
    if width == 0 || height == 0 {
        film
    } else {
        let px = film_x(width, x);
        let py = film_y(width, height, y);
        let at = (py / row_steps(height)) * width + px / 131_072;
        let (here, right, below, across) = shares(energy, px, py, height);
        deposited(
            deposited(deposited(deposited(film, at, here), at + 1, right), at + width, below),
            at + width + 1,
            across,
        )
    }
}

/// The energy that a photon carries: the tristimulus response to its
/// wavelength times its strength.
pub open spec fn photon_energy(photon: Photon) -> Cie {
    let response = cie_response(photon.wavelength as int);
    Cie {
        x: capped(response.x * photon.strength),
        y: capped(response.y * photon.strength),
        z: capped(response.z * photon.strength),
    }
}

/// Three rounded-down parts of an energy whose weights together are at most
/// the whole do not exceed the energy.
proof fn lemma_parts_fit(energy: int, fx: int, fy: int, dy: int)
    requires
        0 <= energy,
        0 <= fx <= 131_072,
        0 <= fy <= dy,
        0 < dy,
    ensures
        0 <= part(energy, fx, dy - fy, dy),
        0 <= part(energy, 131_072 - fx, fy, dy),
        0 <= part(energy, fx, fy, dy),
        part(energy, fx, dy - fy, dy) + part(energy, 131_072 - fx, fy, dy) + part(
            energy,
            fx,
            fy,
            dy,
        ) <= energy,
        fx == 0 ==> part(energy, fx, dy - fy, dy) == 0 && part(energy, fx, fy, dy) == 0,
        fy == 0 ==> part(energy, 131_072 - fx, fy, dy) == 0 && part(energy, fx, fy, dy) == 0,
{
    let whole = 131_072 * dy;
    let a = energy * fx * (dy - fy);
    let b = energy * (131_072 - fx) * fy;
    let c = energy * fx * fy;
    assert(0 <= a && 0 <= b && 0 <= c && a + b + c <= energy * whole) by (nonlinear_arith)
        requires
            0 <= energy,
            0 <= fx <= 131_072,
            0 <= fy <= dy,
            whole == 131_072 * dy,
            a == energy * fx * (dy - fy),
            b == energy * (131_072 - fx) * fy,
            c == energy * fx * fy,
    ;
    assert(0 < whole);
    assert(0 <= a / whole && 0 <= b / whole && 0 <= c / whole && a / whole + b / whole + c / whole
        <= energy) by (nonlinear_arith)
        requires
            0 <= a,
            0 <= b,
            0 <= c,
            0 < whole,
            a + b + c <= energy * whole,
    ;
    assert(fx == 0 ==> a == 0 && c == 0) by (nonlinear_arith)
        requires
            a == energy * fx * (dy - fy),
            c == energy * fx * fy,
    ;
    assert(fy == 0 ==> b == 0 && c == 0) by (nonlinear_arith)
        requires
            b == energy * (131_072 - fx) * fy,
            c == energy * fx * fy,
    ;
}

/// The four shares of an energy add up to it: splatting a photon neither
/// loses light nor makes any.
pub proof fn lemma_shares_sum(energy: Cie, px: int, py: int, height: int)
    requires
        0 <= px,
        0 <= py,
        0 < height,
    ensures
        ({
            let (here, right, below, across) = shares(energy, px, py, height);
            &&& here.x + right.x + below.x + across.x == energy.x
            &&& here.y + right.y + below.y + across.y == energy.y
            &&& here.z + right.z + below.z + across.z == energy.z
        }),
{
    let dy = row_steps(height);
    let fx = px % 131_072;
    let fy = py % dy;
    lemma_parts_fit(energy.x as int, fx, fy, dy);
    lemma_parts_fit(energy.y as int, fx, fy, dy);
    lemma_parts_fit(energy.z as int, fx, fy, dy);
}

/// The larger of two amounts.
pub open spec fn larger(a: int, b: int) -> int {
    if a >= b {
        a
    } else {
        b
    }
}

/// The largest energy that any channel of any pixel holds.
pub open spec fn brightest(film: Seq<Cie>) -> int
    decreases film.len(),
{
    if film.len() == 0 {
        0
    } else {
        let last = film.last();
        larger(brightest(film.drop_last()), larger(last.x as int, larger(last.y as int, last.z as int)))
    }
}

/// The power of two by which energies are divided before they are summed, so
/// that the largest of them, `peak`, comes to lie below two to the power of
/// 31 and no sum can overflow.
pub open spec fn divisor(peak: int) -> int
    decreases peak,
{
    if peak < 0x8000_0000 {
        1
    } else {
        2 * divisor(peak / 2)
    }
}

/// The sum of the luminance, which is the channel Y, over all pixels, each
/// pixel's luminance divided by `d` and rounded down.
pub open spec fn luminance_sum(film: Seq<Cie>, d: int) -> int
    decreases film.len(),
{
    if film.len() == 0 {
        0
    } else {
        luminance_sum(film.drop_last(), d) + (film.last().y as int) / d
    }
}

/// The sum of the squares of the luminance over all pixels, each pixel's
/// luminance divided by `d` and rounded down before it is squared.
pub open spec fn luminance_square_sum(film: Seq<Cie>, d: int) -> int
    decreases film.len(),
{
    if film.len() == 0 {
        0
    } else {
        luminance_square_sum(film.drop_last(), d) + ((film.last().y as int) / d) * ((
        film.last().y as int) / d)
    }
}

/// The exposure of a film, times the number of its pixels: the mean of the
/// luminance plus its standard deviation, both taken over all pixels, of the
/// energies divided by `divisor(brightest(film))`.
pub open spec fn exposure(film: Seq<Cie>) -> int {
    let d = divisor(brightest(film));
    let first = luminance_sum(film, d);
    let second = luminance_square_sum(film, d);
    let spread = film.len() * second - first * first;
    first + sqrt_floor(
        if spread > 0 {
            spread
        } else {
            0
        },
    )
}

/// An energy as a share, in 65536ths, of what the exposure makes white: the
/// energy, divided by `d`, over the exposure `e / n` times the natural
/// logarithm of four, which is taken as 1.3862944.
pub open spec fn exposed(energy: int, d: int, n: int, e: int) -> int {
    (energy / d) * n * 655_360_000_000 / (e * 13_862_944)
}

/// The colour of a pixel for display: its exposed tristimulus value, turned
/// into linear red, green and blue by the matrix of the sRGB standard, and
/// each of the three cut into a byte along the sRGB transfer curve.
pub open spec fn colour(pixel: Cie, d: int, n: int, e: int) -> (u8, u8, u8) {
    let x = exposed(pixel.x as int, d, n, e);
    let y = exposed(pixel.y as int, d, n, e);
    let z = exposed(pixel.z as int, d, n, e);
    (
        encoded((32_406 * x - 15_372 * y - 4_986 * z) / 10_000) as u8,
        encoded((18_758 * y + 415 * z - 9_689 * x) / 10_000) as u8,
        encoded((557 * x - 2_040 * y + 10_570 * z) / 10_000) as u8,
    )
}

/// The picture of a film: one colour for each pixel, row by row. A film
/// without exposure, and with it every dark film, gives a black picture.
pub open spec fn tone_mapped(film: Seq<Cie>) -> Seq<(u8, u8, u8)> {
    Seq::new(
        film.len(),
        |i: int|
            if exposure(film) == 0 {
                (0u8, 0u8, 0u8)
            } else {
                colour(film[i], divisor(brightest(film)), film.len() as int, exposure(film))
            },
    )
}

/// The divisor is a positive number that brings the peak below two to the
/// power of 31, and is itself small beside the peak.
proof fn lemma_divisor_fits(peak: int)
    requires
        0 <= peak,
    ensures
        1 <= divisor(peak),
        peak / divisor(peak) < 0x8000_0000,
        peak >= 0x8000_0000 ==> divisor(peak) * 0x4000_0000 <= peak,
        peak < 0x8000_0000 ==> divisor(peak) == 1,
    decreases peak,
{
    if peak >= 0x8000_0000 {
        lemma_divisor_fits(peak / 2);
        let d = divisor(peak / 2);
        assert(peak / (2 * d) == (peak / 2) / d) by (nonlinear_arith)
            requires
                1 <= d,
                0 <= peak,
        ;
    }
}

/// No channel of any pixel is brighter than the brightest.
proof fn lemma_brightest_bounds(film: Seq<Cie>, i: int)
    requires
        0 <= i < film.len(),
    ensures
        film[i].x <= brightest(film),
        film[i].y <= brightest(film),
        film[i].z <= brightest(film),
        0 <= brightest(film),
    decreases film.len(),
{
    if i < film.len() - 1 {
        lemma_brightest_bounds(film.drop_last(), i);
    } else if film.len() > 1 {
        lemma_brightest_bounds(film.drop_last(), 0);
    }
}

/// A dark film has no exposure.
proof fn lemma_dark_sums(n: nat, d: int)
    requires
        d >= 1,
    ensures
        brightest(dark(n)) == 0,
        luminance_sum(dark(n), d) == 0,
        luminance_square_sum(dark(n), d) == 0,
    decreases n,
{
    if n > 0 {
        lemma_dark_sums((n - 1) as nat, d);
        assert(dark(n).drop_last() =~= dark((n - 1) as nat));
        assert(0int / d == 0) by (nonlinear_arith)
            requires
                d >= 1,
        ;
        assert(0int * 0int == 0);
    }
}

/// A film on which no light has fallen gives a picture that is black in
/// every pixel.
pub proof fn lemma_dark_film_is_black(n: nat)
    ensures
        exposure(dark(n)) == 0,
        tone_mapped(dark(n)) == Seq::new(n, |i: int| (0u8, 0u8, 0u8)),
{
    lemma_dark_sums(n, 1);
    assert(divisor(0) == 1);
    assert(0 * 0 == 0);
    assert(sqrt_floor(0) == 0) by {
        crate::fixed::lemma_sqrt_of_square(0);
    }
    assert(n * 0 - 0 * 0 == 0) by (nonlinear_arith);
    assert(tone_mapped(dark(n)) =~= Seq::new(n, |i: int| (0u8, 0u8, 0u8)));
}

fn add_capped(a: u64, b: u64) -> (sum: u64)
    ensures
        sum == capped(a + b),
{
    if a > u64::MAX - b {
        u64::MAX
    } else {
        a + b
    }
}

fn add_cie(a: Cie, b: Cie) -> (sum: Cie)
    ensures
        sum == added(a, b),
{
    Cie { x: add_capped(a.x, b.x), y: add_capped(a.y, b.y), z: add_capped(a.z, b.z) }
}

/// Column and horizontal remainder of a screen coordinate.
fn film_column(width: u16, x: i32) -> (place: (usize, u64))
    requires
        width >= 1,
    ensures
        place.0 == film_x(width as int, x as int) / 131_072,
        place.1 == film_x(width as int, x as int) % 131_072,
        0 <= film_x(width as int, x as int),
        place.0 < width,
        place.0 == width - 1 ==> place.1 == 0,
{
    let reach: i64 = width as i64 - 1;
    let span: i64 = reach * 131_072;
    let shifted: i64 = x as i64 + 65_536;
    assert(-0x8000_0000 * 65_535 <= shifted * reach <= 0x8001_0000 * 65_535) by (nonlinear_arith)
        requires
            -0x8000_0000 <= shifted <= 0x8001_0000,
            0 <= reach <= 65_535,
    ;
    let raw: i64 = shifted * reach;
    let px: u64 = if raw < 0 {
        0
    } else if raw > span {
        span as u64
    } else {
        raw as u64
    };
    ((px / 131_072) as usize, px % 131_072)
}

/// Row and vertical remainder of a screen coordinate.
fn film_row(width: u16, height: u16, y: i32) -> (place: (usize, u64))
    requires
        width >= 1,
        height >= 1,
    ensures
        place.0 == film_y(width as int, height as int, y as int) / row_steps(height as int),
        place.1 == film_y(width as int, height as int, y as int) % row_steps(height as int),
        0 <= film_y(width as int, height as int, y as int),
        place.0 < height,
        place.1 < row_steps(height as int),
        place.0 == height - 1 ==> place.1 == 0,
{
    let dy: u64 = 131_072 * height as u64;
    let reach: i128 = height as i128 - 1;
    assert(0 <= reach * dy <= 65_535 * (131_072 * 65_535) && reach * dy == (height - 1) * row_steps(
        height as int,
    )) by (nonlinear_arith)
        requires
            0 <= reach <= 65_535,
            reach == height - 1,
            0 <= dy <= 131_072 * 65_535,
            dy == row_steps(height as int),
    ;
    let span: u64 = reach as u64 * dy;
    assert(-0x8000_0000 * 65_535 <= y * width <= 0x8000_0000 * 65_535) by (nonlinear_arith)
        requires
            -0x8000_0000 <= y <= 0x8000_0000,
            0 <= width <= 65_535,
    ;
    let stretched: i128 = y as i128 * width as i128 + 65_536 * height as i128;
    assert(-0x8000_0000 * 65_535 * 65_535 <= stretched * reach <= (0x8000_0000 * 65_535 + 65_536
        * 65_535) * 65_535) by (nonlinear_arith)
        requires
            -0x8000_0000 * 65_535 <= stretched <= 0x8000_0000 * 65_535 + 65_536 * 65_535,
            0 <= reach <= 65_535,
    ;
    let raw: i128 = stretched * reach;
    let py: u64 = if raw < 0 {
        0
    } else if raw > span as i128 {
        span
    } else {
        raw as u64
    };
    proof {
        let d = dy as int;
        let q = py as int / d;
        let r = py as int % d;
        assert(py == d * q + r && 0 <= r < d) by (nonlinear_arith)
            requires
                q == py as int / d,
                r == py as int % d,
                0 < d,
        ;
        assert(q <= reach && (q == reach ==> r == 0)) by (nonlinear_arith)
            requires
                py == d * q + r,
                0 <= r < d,
                py <= reach * d,
                0 < d,
        ;
        assert(0 <= q) by (nonlinear_arith)
            requires
                q == py as int / d,
                0 <= py,
                0 < d,
        ;
    }
    ((py / dy) as usize, py % dy)
}

/// The part of an energy that belongs to two weights.
fn portion(energy: u64, wx: u64, wy: u64, dy: u64) -> (share: u64)
    requires
        wx <= 131_072,
        wy <= dy,
        0 < dy <= 131_072 * 65_535,
    ensures
        share == part(energy as int, wx as int, wy as int, dy as int),
        share <= energy,
{
    assert(0 <= energy * wx <= 0xFFFF_FFFF_FFFF_FFFF * 131_072) by (nonlinear_arith)
        requires
            0 <= energy <= 0xFFFF_FFFF_FFFF_FFFF,
            0 <= wx <= 131_072,
    ;
    let across: u128 = energy as u128 * wx as u128;
    assert(0 <= across * wy <= 0xFFFF_FFFF_FFFF_FFFF * 131_072 * (131_072 * 65_535)
        && across * wy <= energy * (131_072 * dy)) by (nonlinear_arith)
        requires
            0 <= across <= 0xFFFF_FFFF_FFFF_FFFF * 131_072,
            across == energy * wx,
            0 <= energy,
            0 <= wx <= 131_072,
            0 <= wy <= dy,
            dy <= 131_072 * 65_535,
    ;
    let weighted: u128 = across * wy as u128;
    let whole: u128 = 131_072 * dy as u128;
    assert(weighted / whole <= energy) by (nonlinear_arith)
        requires
            0 <= weighted <= energy * whole,
            0 < whole,
    ;
    (weighted / whole) as u64
}

/// `portion`, channel by channel.
fn portion_cie(energy: Cie, wx: u64, wy: u64, dy: u64) -> (share: Cie)
    requires
        wx <= 131_072,
        wy <= dy,
        0 < dy <= 131_072 * 65_535,
    ensures
        share == parted(energy, wx as int, wy as int, dy as int),
{
    Cie {
        x: portion(energy.x, wx, wy, dy),
        y: portion(energy.y, wx, wy, dy),
        z: portion(energy.z, wx, wy, dy),
    }
}

/// The product of a response and a strength.
fn weigh(response: u64, strength: u32) -> (energy: u64)
    ensures
        energy == capped(response * strength),
{
    assert(0 <= response * strength <= 0xFFFF_FFFF_FFFF_FFFF * 0xFFFF_FFFF) by (nonlinear_arith)
        requires
            0 <= response <= 0xFFFF_FFFF_FFFF_FFFF,
            0 <= strength <= 0xFFFF_FFFF,
    ;
    let product: u128 = response as u128 * strength as u128;
    if product > u64::MAX as u128 {
        u64::MAX
    } else {
        product as u64
    }
}

/// A film of `width` by `height` pixels, stored row by row.
pub struct Plotter {
    width: u16,
    height: u16,
    buffer: Vec<Cie>,
}

impl View for Plotter {
    type V = Seq<Cie>;

    /// The pixels of the film, row by row.
    closed spec fn view(&self) -> Seq<Cie> {
        self.buffer@
    }
}

impl Plotter {
    /// Whether the film holds exactly one accumulator for each pixel. Every
    /// film that this module hands out does, and every method keeps it so.
    pub closed spec fn wf(&self) -> bool {
        self.buffer.len() == self.width * self.height
    }

    /// A well-formed film has as many pixels as its size says.
    pub proof fn lemma_size(&self)
        requires
            self.wf(),
        ensures
            self@.len() == self.columns() * self.rows(),
    {
    }

    /// Number of pixels in a row.
    pub closed spec fn columns(&self) -> int {
        self.width as int
    }

    /// Number of rows.
    pub closed spec fn rows(&self) -> int {
        self.height as int
    }

    /// A dark film of the given size.
    pub fn new(width: u16, height: u16) -> (film: Plotter)
        ensures
            film.wf(),
            film.columns() == width,
            film.rows() == height,
            film@ == dark((width * height) as nat),
    {
        assert(0 <= width * height <= 65_535 * 65_535) by (nonlinear_arith)
            requires
                0 <= width <= 65_535,
                0 <= height <= 65_535,
        ;
        let count: usize = width as usize * height as usize;
        let mut buffer: Vec<Cie> = Vec::new();
        while buffer.len() < count
            invariant
                buffer.len() <= count,
                buffer@ == dark(buffer.len() as nat),
            decreases count - buffer.len(),
        {
            buffer.push(Cie { x: 0, y: 0, z: 0 });
            assert(buffer@ =~= dark(buffer.len() as nat));
        }
        Plotter { width, height, buffer }
    }

    /// The film that holds, pixel by pixel, the sum of two films of one size.
    pub fn new_merged(one: &Plotter, other: &Plotter) -> (film: Plotter)
        requires
            one.wf(),
            other.wf(),
            one.columns() == other.columns(),
            one.rows() == other.rows(),
        ensures
            film.wf(),
            film.columns() == one.columns(),
            film.rows() == one.rows(),
            film@ == merged(one@, other@),
    {
        let mut buffer: Vec<Cie> = Vec::new();
        while buffer.len() < one.buffer.len()
            invariant
                one.buffer.len() == other.buffer.len(),
                buffer.len() <= one.buffer.len(),
                buffer@ == merged(one.buffer@, other.buffer@).take(buffer.len() as int),
            decreases one.buffer.len() - buffer.len(),
        {
            let at: usize = buffer.len();
            buffer.push(add_cie(one.buffer[at], other.buffer[at]));
            assert(buffer@ =~= merged(one.buffer@, other.buffer@).take(buffer.len() as int));
        }
        assert(buffer@ =~= merged(one.buffer@, other.buffer@));
        Plotter { width: one.width, height: one.height, buffer }
    }

    /// Adds another film of the same size to this one, pixel by pixel.
    pub fn merge(&mut self, other: Plotter)
        requires
            old(self).wf(),
            other.wf(),
            old(self).columns() == other.columns(),
            old(self).rows() == other.rows(),
        ensures
            final(self).wf(),
            final(self).columns() == old(self).columns(),
            final(self).rows() == old(self).rows(),
            final(self)@ == merged(old(self)@, other@),
    {
        let mut at: usize = 0;
        while at < self.buffer.len()
            invariant
                self.width == old(self).width,
                self.height == old(self).height,
                self.buffer.len() == old(self).buffer.len(),
                self.buffer.len() == other.buffer.len(),
                self.buffer.len() == self.width * self.height,
                at <= self.buffer.len(),
                forall|i: int| 0 <= i < at ==> self.buffer@[i] == added(old(self).buffer@[i], other.buffer@[i]),
                forall|i: int| at <= i < self.buffer.len() ==> self.buffer@[i] == old(self).buffer@[i],
            decreases self.buffer.len() - at,
        {
            let sum = add_cie(self.buffer[at], other.buffer[at]);
            self.buffer.set(at, sum);
            at += 1;
        }
        assert(self.buffer@ =~= merged(old(self).buffer@, other.buffer@));
    }

    /// Adds an energy to the pixel at position `at` of the buffer.
    fn deposit(&mut self, at: usize, energy: Cie)
        requires
            at < old(self)@.len(),
        ensures
            final(self)@ == deposited(old(self)@, at as int, energy),
            final(self).width == old(self).width,
            final(self).height == old(self).height,
    {
        let sum = add_cie(self.buffer[at], energy);
        self.buffer.set(at, sum);
    }

    /// Splats an energy at a point of the screen.
    fn plot_pixel(&mut self, x: i32, y: i32, cie: Cie)
        requires
            old(self).wf(),
        ensures
            final(self).wf(),
            final(self).columns() == old(self).columns(),
            final(self).rows() == old(self).rows(),
            final(self)@ == splatted(
                old(self)@,
                old(self).columns(),
                old(self).rows(),
                x as int,
                y as int,
                cie,
            ),
    {
        if self.width == 0 || self.height == 0 {
            return ;
        }
        let width: usize = self.width as usize;
        let (column, fx) = film_column(self.width, x);
        let (row, fy) = film_row(self.width, self.height, y);
        let dy: u64 = 131_072 * self.height as u64;
        let right = portion_cie(cie, fx, dy - fy, dy);
        let below = portion_cie(cie, 131_072 - fx, fy, dy);
        let across = portion_cie(cie, fx, fy, dy);
        proof {
            lemma_parts_fit(cie.x as int, fx as int, fy as int, dy as int);
            lemma_parts_fit(cie.y as int, fx as int, fy as int, dy as int);
            lemma_parts_fit(cie.z as int, fx as int, fy as int, dy as int);
            assert(0 <= row * width + column && row * width + column + width + 1 <= self.width
                * self.height + width + 1 && (row + 1 < self.height ==> row * width + column
                + width < self.width * self.height) && (row + 1 < self.height && column + 1
                < self.width ==> row * width + column + width + 1 < self.width * self.height)
                && (column + 1 < self.width ==> row * width + column + 1 < self.width
                * self.height) && row * width + column < self.width * self.height)
                by (nonlinear_arith)
                requires
                    0 <= column < self.width,
                    0 <= row < self.height,
                    width == self.width,
            ;
        }
        let here = Cie {
            x: cie.x - right.x - below.x - across.x,
            y: cie.y - right.y - below.y - across.y,
            z: cie.z - right.z - below.z - across.z,
        };
        let at: usize = row * width + column;
        let ghost dark_cie = Cie { x: 0, y: 0, z: 0 };
        self.deposit(at, here);
        let ghost first = self@;
        if fx > 0 {
            self.deposit(at + 1, right);
        } else {
            assert(right == dark_cie);
            assert(deposited(first, at + 1, right) =~= first);
        }
        let ghost second = self@;
        if fy > 0 {
            self.deposit(at + width, below);
        } else {
            assert(below == dark_cie);
            assert(deposited(second, at + width, below) =~= second);
        }
        let ghost third = self@;
        if fx > 0 && fy > 0 {
            self.deposit(at + width + 1, across);
        } else {
            assert(across == dark_cie);
            assert(deposited(third, at + width + 1, across) =~= third);
        }
    }

    /// Lets a photon fall on the film: its wavelength is turned into a
    /// tristimulus response, the response is weighed with the photon's
    /// strength, and the energy is splatted at the photon's place on the
    /// screen. A photon without strength, or with a wavelength outside the
    /// visible band, leaves the film as it is.
    pub fn plot_photon(&mut self, photon: Photon)
        requires
            old(self).wf(),
        ensures
            final(self).wf(),
            final(self).columns() == old(self).columns(),
            final(self).rows() == old(self).rows(),
            final(self)@ == splatted(
                old(self)@,
                old(self).columns(),
                old(self).rows(),
                photon.x as int,
                photon.y as int,
                photon_energy(photon),
            ),
    {
        let response = wavelength_to_cie(photon.wavelength);
        let energy = Cie {
            x: weigh(response.x, photon.strength),
            y: weigh(response.y, photon.strength),
            z: weigh(response.z, photon.strength),
        };
        self.plot_pixel(photon.x, photon.y, energy);
    }

    /// The exposure of the film times the number of its pixels, and the
    /// divisor by which every energy was divided on the way.
    fn calculate_exposure(&self) -> (measured: (u64, u128))
        requires
            self.wf(),
        ensures
            measured.0 == divisor(brightest(self@)),
            measured.1 == exposure(self@),
            1 <= measured.0 <= 0x4_0000_0000,
            measured.1 <= 0x1_0000_0000_0000_0000,
    {
        let count: usize = self.buffer.len();
        let mut peak: u64 = 0;
        let mut at: usize = 0;
        while at < count
            invariant
                count == self.buffer.len(),
                at <= count,
                peak == brightest(self.buffer@.take(at as int)),
            decreases count - at,
        {
            let pixel = self.buffer[at];
            proof {
                let grown = self.buffer@.take(at + 1);
                assert(grown.drop_last() =~= self.buffer@.take(at as int));
                assert(grown.last() == pixel);
            }
            if pixel.x > peak {
                peak = pixel.x;
            }
            if pixel.y > peak {
                peak = pixel.y;
            }
            if pixel.z > peak {
                peak = pixel.z;
            }
            at += 1;
        }
        assert(self.buffer@.take(count as int) =~= self.buffer@);
        let mut d: u64 = 1;
        let mut rest: u64 = peak;
        proof {
            lemma_divisor_fits(peak as int);
        }
        while rest >= 0x8000_0000
            invariant
                divisor(peak as int) == d * divisor(rest as int),
                1 <= d,
                divisor(peak as int) <= 0x4_0000_0000,
            decreases rest,
        {
            proof {
                lemma_divisor_fits(rest as int / 2);
                assert(d * (2 * divisor(rest as int / 2)) == (d * 2) * divisor(rest as int / 2))
                    by (nonlinear_arith);
                assert(d * 2 <= (d * 2) * divisor(rest as int / 2)) by (nonlinear_arith)
                    requires
                        1 <= divisor(rest as int / 2),
                        1 <= d,
                ;
            }
            rest = rest / 2;
            d = d * 2;
        }
        assert(d * 1 == d) by (nonlinear_arith);
        let mut first: u128 = 0;
        let mut second: u128 = 0;
        at = 0;
        while at < count
            invariant
                count == self.buffer.len(),
                count == self.width * self.height,
                at <= count,
                d == divisor(brightest(self.buffer@)),
                1 <= d,
                first == luminance_sum(self.buffer@.take(at as int), d as int),
                second == luminance_square_sum(self.buffer@.take(at as int), d as int),
                first <= at * 0x8000_0000,
                second <= at * 0x4000_0000_0000_0000,
            decreases count - at,
        {
            let pixel = self.buffer[at];
            proof {
                let grown = self.buffer@.take(at + 1);
                assert(grown.drop_last() =~= self.buffer@.take(at as int));
                assert(grown.last() == pixel);
                lemma_brightest_bounds(self.buffer@, at as int);
                lemma_divisor_fits(brightest(self.buffer@));
                let top = brightest(self.buffer@);
                assert(pixel.y as int / (d as int) <= top / (d as int)) by (nonlinear_arith)
                    requires
                        0 <= pixel.y <= top,
                        1 <= d,
                ;
                assert(0 <= self.width * self.height <= 65_535 * 65_535) by (nonlinear_arith)
                    requires
                        0 <= self.width <= 65_535,
                        0 <= self.height <= 65_535,
                ;
            }
            let y: u128 = (pixel.y / d) as u128;
            assert(0 <= y * y <= 0x7FFF_FFFF * 0x7FFF_FFFF) by (nonlinear_arith)
                requires
                    0 <= y <= 0x7FFF_FFFF,
            ;
            first = first + y;
            second = second + y * y;
            at += 1;
        }
        assert(self.buffer@.take(count as int) =~= self.buffer@);
        proof {
            assert(0 <= self.width * self.height <= 65_535 * 65_535) by (nonlinear_arith)
                requires
                    0 <= self.width <= 65_535,
                    0 <= self.height <= 65_535,
            ;
            assert(0 <= count * second <= 0x1_0000_0000 * 0x4000_0000_0000_0000_0000_0000)
                by (nonlinear_arith)
                requires
                    0 <= count <= 0x1_0000_0000,
                    0 <= second <= 0x4000_0000_0000_0000_0000_0000,
            ;
            assert(0 <= first * first <= 0x8000_0000_0000_0000 * 0x8000_0000_0000_0000)
                by (nonlinear_arith)
                requires
                    0 <= first <= 0x8000_0000_0000_0000,
            ;
        }
        let whole: u128 = count as u128 * second;
        let square: u128 = first * first;
        let spread: u128 = if whole > square {
            whole - square
        } else {
            0
        };
        let root: u64 = isqrt(spread);
        assert(root <= 0x8000_0000_0000_0000) by (nonlinear_arith)
            requires
                root * root <= spread,
                spread <= 0x4000_0000_0000_0000_0000_0000_0000_0000,
                0 <= root,
        ;
        (d, first + root as u128)
    }

    /// An energy as a share of white.
    fn expose(energy: u64, d: u64, n: u128, e: u128) -> (share: i128)
        requires
            1 <= d,
            energy / d < 0x8000_0000,
            n <= 0xFFFF_FFFF,
            0 < e <= 0x1_0000_0000_0000_0000,
        ensures
            share == exposed(energy as int, d as int, n as int, e as int),
            0 <= share <= 0x80_0000_0000_0000_0000_0000_0000,
    {
        let scaled: u128 = (energy / d) as u128;
        assert(0 <= scaled * n <= 0x7FFF_FFFF * 0xFFFF_FFFF) by (nonlinear_arith)
            requires
                0 <= scaled <= 0x7FFF_FFFF,
                0 <= n <= 0xFFFF_FFFF,
        ;
        assert(0 < e * 13_862_944 <= 0x1_0000_0000_0000_0000 * 13_862_944) by (nonlinear_arith)
            requires
                0 < e <= 0x1_0000_0000_0000_0000,
        ;
        let above: u128 = scaled * n * 655_360_000_000;
        let below: u128 = e * 13_862_944;
        assert(above / below <= above) by (nonlinear_arith)
            requires
                0 <= above,
                1 <= below,
        ;
        (above / below) as i128
    }

    /// The picture of the film, ready for display: one triple of red, green
    /// and blue for each pixel, row by row. The exposure is measured over the
    /// whole film; each pixel is then held against it, turned into linear
    /// red, green and blue, and cut into bytes along the sRGB transfer curve.
    /// A film without exposure gives a black picture.
    pub fn tone_map(&self) -> (picture: Vec<(u8, u8, u8)>)
        requires
            self.wf(),
        ensures
            picture@ == tone_mapped(self@),
            picture@.len() == self.columns() * self.rows(),
    {
        let (d, e) = self.calculate_exposure();
        let count: usize = self.buffer.len();
        proof {
            assert(0 <= self.width * self.height <= 65_535 * 65_535) by (nonlinear_arith)
                requires
                    0 <= self.width <= 65_535,
                    0 <= self.height <= 65_535,
            ;
        }
        let n: u128 = count as u128;
        let mut picture: Vec<(u8, u8, u8)> = Vec::new();
        let mut at: usize = 0;
        while at < count
            invariant
                count == self.buffer.len(),
                n == count,
                n <= 0xFFFF_FFFF,
                at <= count,
                d == divisor(brightest(self.buffer@)),
                e == exposure(self.buffer@),
                1 <= d,
                e <= 0x1_0000_0000_0000_0000,
                picture@ == tone_mapped(self.buffer@).take(at as int),
            decreases count - at,
        {
            let pixel = self.buffer[at];
            let shade: (u8, u8, u8) = if e == 0 {
                (0, 0, 0)
            } else {
                proof {
                    lemma_brightest_bounds(self.buffer@, at as int);
                    lemma_divisor_fits(brightest(self.buffer@));
                    let top = brightest(self.buffer@);
                    assert(pixel.x as int / (d as int) <= top / (d as int) && pixel.y as int / (
                    d as int) <= top / (d as int) && pixel.z as int / (d as int) <= top / (
                    d as int)) by (nonlinear_arith)
                        requires
                            0 <= pixel.x <= top,
                            0 <= pixel.y <= top,
                            0 <= pixel.z <= top,
                            1 <= d,
                    ;
                }
                let x: i128 = Self::expose(pixel.x, d, n, e);
                let y: i128 = Self::expose(pixel.y, d, n, e);
                let z: i128 = Self::expose(pixel.z, d, n, e);
                (
                    quantize(floor_div(32_406 * x - 15_372 * y - 4_986 * z, 10_000)),
                    quantize(floor_div(18_758 * y + 415 * z - 9_689 * x, 10_000)),
                    quantize(floor_div(557 * x - 2_040 * y + 10_570 * z, 10_000)),
                )
            };
            picture.push(shade);
            at += 1;
            assert(picture@ =~= tone_mapped(self.buffer@).take(at as int));
        }
        assert(picture@ =~= tone_mapped(self.buffer@));
        picture
    }

    /// Number of pixels in a row.
    pub fn width(&self) -> (width: u16)
        ensures
            width == self.columns(),
    {
        self.width
    }

    /// Number of rows.
    pub fn height(&self) -> (height: u16)
        ensures
            height == self.rows(),
    {
        self.height
    }

    /// The energy gathered in the pixel at `column` of `row`, or `None` where
    /// the film has no such pixel.
    pub fn pixel(&self, column: u16, row: u16) -> (energy: Option<Cie>)
        requires
            self.wf(),
        ensures
            column < self.columns() && row < self.rows() ==> energy == Some(
                self@[row * self.columns() + column],
            ),
            !(column < self.columns() && row < self.rows()) ==> energy is None,
    {
        if column < self.width && row < self.height {
            assert(0 <= row * self.width + column < self.width * self.height) by (nonlinear_arith)
                requires
                    0 <= column < self.width,
                    0 <= row < self.height,
            ;
            Some(self.buffer[row as usize * self.width as usize + column as usize])
        } else {
            None
        }
    }
}

/// Merging is commutative: it does not matter which of two films is added to
/// which.
pub proof fn lemma_merge_commutes(a: Seq<Cie>, b: Seq<Cie>)
    requires
        a.len() == b.len(),
    ensures
        merged(a, b) == merged(b, a),
{
    assert(merged(a, b) =~= merged(b, a));
}

/// Merging is associative: three films merge to the same film whichever two
/// of them are merged first.
pub proof fn lemma_merge_associates(a: Seq<Cie>, b: Seq<Cie>, c: Seq<Cie>)
    requires
        a.len() == b.len(),
        b.len() == c.len(),
    ensures
        merged(merged(a, b), c) == merged(a, merged(b, c)),
{
    assert(merged(merged(a, b), c) =~= merged(a, merged(b, c)));
}

/// Merging with a dark film of the same size changes nothing, on either side.
pub proof fn lemma_merge_with_dark(a: Seq<Cie>)
    ensures
        merged(a, dark(a.len())) == a,
        merged(dark(a.len()), a) == a,
{
    assert(merged(a, dark(a.len())) =~= a);
    assert(merged(dark(a.len()), a) =~= a);
}

} // verus!
