//! Colour matching: how strongly light of one wavelength excites each of the
//! three CIE tristimulus channels.
//!
//! Wavelengths are whole picometres and responses are whole millionths, so the
//! tabulated colour-matching functions are held exactly and every value between
//! two table entries is a rounded-down linear blend of them.

use vstd::prelude::*;

verus! {

/// The x-bar colour-matching function in millionths, every 5 nm from 380 nm to 780 nm.
pub const CIE_X: [u32; 81] = [
    1368, 2236, 4243, 7650, 14310, 23190, 43510, 77630, 134380,
    214770, 283900, 328500, 348280, 348060, 336200, 318700, 290800, 251100,
    195360, 142100, 95640, 57950, 32010, 14700, 4900, 2400, 9300,
    29100, 63270, 109600, 165500, 225750, 290400, 359700, 433450, 512050,
    594500, 678400, 762100, 842500, 916300, 978600, 1026300, 1056700, 1062200,
    1045600, 1002600, 938400, 854450, 751400, 642400, 541900, 447900, 360800,
    283500, 218700, 164900, 121200, 87400, 63600, 46770, 32900, 22700,
    15840, 11359, 8111, 5790, 4109, 2899, 2049, 1440, 1000,
    690, 476, 332, 235, 166, 117, 83, 59, 42,
];

/// The y-bar colour-matching function (luminance) in millionths, on the same grid.
pub const CIE_Y: [u32; 81] = [
    39, 64, 120, 217, 396, 640, 1210, 2180, 4000,
    7300, 11600, 16840, 23000, 29800, 38000, 48000, 60000, 73900,
    90980, 112600, 139020, 169300, 208020, 258600, 323000, 407300, 503000,
    608200, 710000, 793200, 862000, 914850, 954000, 980300, 994950, 1000000,
    995000, 978600, 952000, 915400, 870000, 816300, 757000, 694900, 631000,
    566800, 503000, 441200, 381000, 321000, 265000, 217000, 175000, 138200,
    107000, 81600, 61000, 44580, 32000, 23200, 17000, 11920, 8210,
    5723, 4102, 2929, 2091, 1484, 1047, 740, 520, 361,
    249, 172, 120, 85, 60, 42, 30, 21, 15,
];

/// The z-bar colour-matching function in millionths, on the same grid.
pub const CIE_Z: [u32; 81] = [
    6450, 10550, 20050, 36210, 67850, 110200, 207400, 371300, 645600,
    1039050, 1385600, 1622960, 1747060, 1782600, 1772110, 1744100, 1669200, 1528100,
    1287640, 1041900, 812950, 616200, 465180, 353300, 272000, 212300, 158200,
    111700, 78250, 57250, 42160, 29840, 20300, 13400, 8750, 5750,
    3900, 2750, 2100, 1800, 1650, 1400, 1100, 1000, 800,
    600, 340, 240, 190, 100, 50, 30, 20, 10,
    0, 0, 0, 0, 0, 0, 0, 0, 0,
    0, 0, 0, 0, 0, 0, 0, 0, 0,
    0, 0, 0, 0, 0, 0, 0, 0, 0,
];

/// Shortest wavelength, in picometres, that can excite any channel: one grid
/// step below the first table entry.
pub const VISIBLE_FROM: u32 = 375_000;

/// First wavelength, in picometres, beyond the visible band: one grid step
/// above the last table entry.
pub const VISIBLE_UNTIL: u32 = 785_000;

/// Distance in picometres between two neighbouring table entries.
pub const GRID_STEP: u32 = 5_000;

/// Largest change of any response, in millionths, per picometre of wavelength.
pub const STEEPEST: u32 = 79;

/// A tristimulus value: one amount for each of the channels X, Y and Z.
#[derive(Clone, Copy, PartialEq, Eq, Debug, Structural)]
pub struct Cie {
    pub x: u64,
    pub y: u64,
    pub z: u64,
}

/// Value of a colour-matching function at grid point `k`, where grid point 0
/// lies at 375 nm and grid point 82 at 785 nm. The table fills the points 1 to
/// 81; the two outermost points are zero.
pub open spec fn anchor(table: [u32; 81], k: int) -> int {
    if 1 <= k <= 81 {
        table[k - 1] as int
    } else {
        0
    }
}

/// Response of one channel to a wavelength in picometres: zero outside the
/// visible band, and inside it the linear blend of the two enclosing grid
/// points, rounded down.
pub open spec fn response(table: [u32; 81], wavelength: int) -> int {
    if 375_000 <= wavelength < 785_000 {
        let k = (wavelength - 375_000) / 5_000;
        let r = (wavelength - 375_000) % 5_000;
        (anchor(table, k) * (5_000 - r) + anchor(table, k + 1) * r) / 5_000
    } else {
        0
    }
}

/// The tristimulus response to a wavelength in picometres, in millionths.
pub open spec fn cie_response(wavelength: int) -> Cie {
    Cie {
        x: response(CIE_X, wavelength) as u64,
        y: response(CIE_Y, wavelength) as u64,
        z: response(CIE_Z, wavelength) as u64,
    }
}

/// Whether two neighbouring grid points differ by no more than `STEEPEST`
/// millionths per picometre between them.
pub open spec fn gentle_at(table: [u32; 81], k: int) -> bool {
    -395_000 <= anchor(table, k + 1) - anchor(table, k) <= 395_000
}

/// Whether `gentle_at` holds of the first `n` grid intervals.
pub open spec fn gentle_below(table: [u32; 81], n: nat) -> bool
    decreases n,
{
    n == 0 || (gentle_at(table, n - 1) && gentle_below(table, (n - 1) as nat))
}

proof fn lemma_gentle_interval(table: [u32; 81], n: nat, k: int)
    requires
        gentle_below(table, n),
        0 <= k < n,
    ensures
        gentle_at(table, k),
    decreases n,
{
    if k < n - 1 {
        lemma_gentle_interval(table, (n - 1) as nat, k);
    }
}

/// A blend of two values lies between them.
proof fn lemma_blend_bounds(lo: int, hi: int, r: int)
    requires
        0 <= lo,
        0 <= hi,
        0 <= r <= 5_000,
    ensures
        0 <= lo * (5_000 - r) + hi * r,
        lo <= hi ==> lo * 5_000 <= lo * (5_000 - r) + hi * r <= hi * 5_000,
        hi <= lo ==> hi * 5_000 <= lo * (5_000 - r) + hi * r <= lo * 5_000,
{
    assert(lo * (5_000 - r) + hi * r == lo * 5_000 + (hi - lo) * r) by (nonlinear_arith);
    assert(lo <= hi ==> 0 <= (hi - lo) * r <= (hi - lo) * 5_000) by (nonlinear_arith)
        requires
            0 <= r <= 5_000,
    ;
    assert(hi <= lo ==> (hi - lo) * 5_000 <= (hi - lo) * r <= 0) by (nonlinear_arith)
        requires
            0 <= r <= 5_000,
    ;
}

/// Moving one picometre along changes the blend's numerator by the difference
/// of the two grid points, also across a grid point.
proof fn lemma_numerator_step(table: [u32; 81], wavelength: int)
    requires
        375_000 <= wavelength < 785_000,
    ensures
        ({
            let k = (wavelength - 375_000) / 5_000;
            let r = (wavelength - 375_000) % 5_000;
            let lo = anchor(table, k);
            let hi = anchor(table, k + 1);
            response(table, wavelength + 1) == (lo * (5_000 - r) + hi * r + (hi - lo)) / 5_000
        }),
{
    let k = (wavelength - 375_000) / 5_000;
    let r = (wavelength - 375_000) % 5_000;
    let lo = anchor(table, k);
    let hi = anchor(table, k + 1);
    assert(lo * (5_000 - r) + hi * r + (hi - lo) == lo * (5_000 - (r + 1)) + hi * (r + 1))
        by (nonlinear_arith);
    if r == 4_999 {
        let next = anchor(table, k + 2);
        assert(lo * (5_000 - (r + 1)) + hi * (r + 1) == hi * 5_000) by (nonlinear_arith)
            requires
                r == 4_999,
        ;
        if wavelength + 1 < 785_000 {
            assert((wavelength + 1 - 375_000) / 5_000 == k + 1);
            assert((wavelength + 1 - 375_000) % 5_000 == 0);
            assert(hi * (5_000 - 0) + next * 0 == hi * 5_000) by (nonlinear_arith);
        } else {
            assert(k == 81);
            assert(hi == 0);
        }
    } else {
        assert((wavelength + 1 - 375_000) / 5_000 == k);
        assert((wavelength + 1 - 375_000) % 5_000 == r + 1);
    }
}

proof fn lemma_response_step(table: [u32; 81], wavelength: int)
    requires
        gentle_below(table, 82),
    ensures
        -79 <= response(table, wavelength + 1) - response(table, wavelength) <= 79,
{
    if 375_000 <= wavelength < 785_000 {
        let k = (wavelength - 375_000) / 5_000;
        lemma_gentle_interval(table, 82, k);
        lemma_numerator_step(table, wavelength);
    } else if wavelength == 374_999 {
        assert(anchor(table, 0) == 0);
        assert(anchor(table, 0) * (5_000 - 0) + anchor(table, 1) * 0 == 0) by (nonlinear_arith)
            requires
                anchor(table, 0) == 0,
        ;
    }
}

proof fn lemma_response_drift(table: [u32; 81], from: int, to: int)
    requires
        gentle_below(table, 82),
        from <= to,
    ensures
        -79 * (to - from) <= response(table, to) - response(table, from) <= 79 * (to - from),
    decreases to - from,
{
    if from < to {
        lemma_response_drift(table, from, to - 1);
        lemma_response_step(table, to - 1);
    }
}

proof fn lemma_tables_gentle()
    ensures
        gentle_below(CIE_X, 82),
        gentle_below(CIE_Y, 82),
        gentle_below(CIE_Z, 82),
{
    reveal_with_fuel(gentle_below, 83);
}

/// The response is continuous in the wavelength: between two wavelengths no
/// channel changes by more than `STEEPEST` millionths for each picometre that
/// separates them. This holds across the edges of the visible band as well.
pub proof fn lemma_response_continuous(from: int, to: int)
    requires
        from <= to,
    ensures
        -79 * (to - from) <= response(CIE_X, to) - response(CIE_X, from) <= 79 * (to - from),
        -79 * (to - from) <= response(CIE_Y, to) - response(CIE_Y, from) <= 79 * (to - from),
        -79 * (to - from) <= response(CIE_Z, to) - response(CIE_Z, from) <= 79 * (to - from),
{
    lemma_tables_gentle();
    lemma_response_drift(CIE_X, from, to);
    lemma_response_drift(CIE_Y, from, to);
    lemma_response_drift(CIE_Z, from, to);
}

/// On the grid the response is the tabulated value itself: entry `i` of each
/// table is the response at `380 nm + i * 5 nm`.
pub proof fn lemma_response_on_grid(table: [u32; 81], i: int)
    requires
        0 <= i < 81,
    ensures
        response(table, 380_000 + 5_000 * i) == table[i],
{
    let wavelength = 380_000 + 5_000 * i;
    assert((wavelength - 375_000) / 5_000 == i + 1);
    assert((wavelength - 375_000) % 5_000 == 0);
    let lo = anchor(table, i + 1);
    let hi = anchor(table, i + 2);
    assert(lo * (5_000 - 0) + hi * 0 == lo * 5_000) by (nonlinear_arith);
}

/// Response of one channel to a wavelength in picometres.
fn respond(table: &[u32; 81], wavelength: u32) -> (r: u32)
    ensures
        r == response(*table, wavelength as int),
{
    if wavelength < VISIBLE_FROM || wavelength >= VISIBLE_UNTIL {
        return 0;
    }
    let offset: u32 = wavelength - VISIBLE_FROM;
    let k: usize = (offset / GRID_STEP) as usize;
    let r: u64 = (offset % GRID_STEP) as u64;
    let lo: u64 = if k >= 1 {
        table[k - 1] as u64
    } else {
        0
    };
    let hi: u64 = if k < 81 {
        table[k] as u64
    } else {
        0
    };
    proof {
        lemma_blend_bounds(lo as int, hi as int, r as int);
    }
    let blend: u64 = (lo * (5_000 - r) + hi * r) / 5_000;
    blend as u32
}

/// The tristimulus response, in millionths, to light of a wavelength given in
/// picometres: the piecewise-linear blend of the tabulated colour-matching
/// functions, and zero for every wavelength outside the visible band.
pub fn wavelength_to_cie(wavelength: u32) -> (cie: Cie)
    ensures
        cie == cie_response(wavelength as int),
        wavelength < VISIBLE_FROM || wavelength >= VISIBLE_UNTIL ==> cie == (Cie { x: 0, y: 0, z: 0 }),
        cie.x <= u32::MAX && cie.y <= u32::MAX && cie.z <= u32::MAX,
{
    Cie {
        x: respond(&CIE_X, wavelength) as u64,
        y: respond(&CIE_Y, wavelength) as u64,
        z: respond(&CIE_Z, wavelength) as u64,
    }
}

} // verus!
