//! The step from linear light to the bytes of a picture: the sRGB transfer
//! curve, cut into the 256 levels of a byte.
//!
//! The curve takes a fractional power of the light. What is needed here is
//! only the level that the curve reaches, and whether it reaches a level is a
//! comparison of whole numbers: the curve's power is five twelfths, so the
//! fifth power of the light is held against the twelfth power of the level.

use vstd::prelude::*;

verus! {

/// For each level, the least amount of light, in 65536ths, with which the
/// curve's upper part reaches it.
pub const THRESHOLDS: [u32; 256] = [
    0, 65, 76, 88, 100, 114, 129, 145,
    162, 180, 199, 220, 241, 264, 288, 314,
    340, 368, 397, 427, 459, 492, 526, 562,
    599, 638, 677, 719, 762, 806, 851, 898,
    947, 997, 1049, 1102, 1157, 1213, 1271, 1330,
    1391, 1454, 1518, 1584, 1651, 1720, 1791, 1863,
    1938, 2013, 2091, 2170, 2251, 2334, 2418, 2504,
    2592, 2682, 2773, 2867, 2962, 3059, 3157, 3258,
    3360, 3465, 3571, 3679, 3789, 3901, 4014, 4130,
    4247, 4367, 4488, 4612, 4737, 4864, 4993, 5125,
    5258, 5393, 5530, 5669, 5811, 5954, 6099, 6247,
    6396, 6547, 6701, 6857, 7014, 7174, 7336, 7500,
    7666, 7835, 8005, 8178, 8352, 8529, 8708, 8889,
    9073, 9258, 9446, 9636, 9828, 10023, 10219, 10418,
    10619, 10823, 11028, 11236, 11446, 11659, 11873, 12090,
    12310, 12531, 12755, 12981, 13210, 13441, 13674, 13909,
    14147, 14387, 14630, 14875, 15122, 15372, 15624, 15879,
    16136, 16395, 16657, 16921, 17187, 17456, 17728, 18002,
    18278, 18557, 18838, 19122, 19408, 19697, 19988, 20282,
    20578, 20877, 21178, 21482, 21788, 22097, 22408, 22722,
    23039, 23358, 23679, 24003, 24330, 24659, 24991, 25326,
    25663, 26002, 26345, 26689, 27037, 27387, 27740, 28095,
    28453, 28814, 29177, 29543, 29912, 30283, 30657, 31034,
    31413, 31795, 32180, 32568, 32958, 33351, 33746, 34144,
    34546, 34949, 35356, 35765, 36177, 36592, 37009, 37430,
    37853, 38279, 38707, 39139, 39573, 40010, 40450, 40892,
    41338, 41786, 42237, 42691, 43148, 43607, 44070, 44535,
    45003, 45474, 45948, 46425, 46904, 47387, 47872, 48360,
    48851, 49345, 49842, 50342, 50845, 51350, 51859, 52370,
    52885, 53402, 53923, 54446, 54972, 55501, 56033, 56568,
    57106, 57647, 58191, 58738, 59288, 59841, 60397, 60956,
    61518, 62083, 62651, 63222, 63796, 64373, 64953, 65536,
];

/// The fifth power.
pub open spec fn pow5(x: int) -> int {
    x * x * x * x * x
}

/// The twelfth power.
pub open spec fn pow12(x: int) -> int {
    let cube = x * x * x;
    cube * cube * cube * cube
}

/// Whether the upper part of the curve, `1.055 * d^(5/12) - 0.055`, reaches
/// the level `k` out of 255 for the light `d` in 65536ths.
pub open spec fn power_reached(d: int, k: int) -> bool {
    pow5(d) * pow12(269_025) >= pow12(1_000 * k + 14_025) * pow5(65_536)
}

/// Whether light is so dim that the lower, straight part of the curve holds
/// for it: it is less than 0.0031308.
pub open spec fn dim(d: int) -> bool {
    d * 10_000_000 < 31_308 * 65_536
}

/// The level that the straight part of the curve, `12.92 * d`, reaches.
pub open spec fn linear_level(d: int) -> int {
    d * 32_946 / 655_360
}

/// The highest level up to `k` that the upper part of the curve reaches.
pub open spec fn top_level(d: int, k: int) -> int
    decreases k,
{
    if k <= 0 {
        0
    } else if power_reached(d, k) {
        k
    } else {
        top_level(d, k - 1)
    }
}

/// The byte for an amount of linear light in 65536ths: nothing for no light
/// or less, 255 for full light or more, and between them the level that the
/// transfer curve reaches, rounded down.
pub open spec fn encoded(d: int) -> int {
    if d <= 0 {
        0
    } else if d >= 65_536 {
        255
    } else if dim(d) {
        linear_level(d)
    } else {
        top_level(d, 255)
    }
}

/// Whether entry `k` of the table is the least light that reaches level `k`,
/// and is no smaller than the entry before it.
pub open spec fn threshold_fits(k: int) -> bool {
    &&& THRESHOLDS[k - 1] <= THRESHOLDS[k]
    &&& power_reached(THRESHOLDS[k] as int, k)
    &&& !power_reached(THRESHOLDS[k] - 1, k)
}

/// Whether `threshold_fits` holds of the entries from 1 up to `n`.
pub open spec fn thresholds_fit(n: nat) -> bool
    decreases n,
{
    n == 0 || (threshold_fits(n as int) && thresholds_fit((n - 1) as nat))
}

proof fn lemma_threshold_fits(n: nat, k: int)
    requires
        thresholds_fit(n),
        1 <= k <= n,
    ensures
        threshold_fits(k),
    decreases n,
{
    if k < n {
        lemma_threshold_fits((n - 1) as nat, k);
    }
}

proof fn lemma_thresholds_to_32()
    ensures
        thresholds_fit(32),
{
    assert(power_reached(65, 1) && !power_reached(64, 1)) by (nonlinear_arith);
    assert(power_reached(76, 2) && !power_reached(75, 2)) by (nonlinear_arith);
    assert(power_reached(88, 3) && !power_reached(87, 3)) by (nonlinear_arith);
    assert(power_reached(100, 4) && !power_reached(99, 4)) by (nonlinear_arith);
    assert(power_reached(114, 5) && !power_reached(113, 5)) by (nonlinear_arith);
    assert(power_reached(129, 6) && !power_reached(128, 6)) by (nonlinear_arith);
    assert(power_reached(145, 7) && !power_reached(144, 7)) by (nonlinear_arith);
    assert(power_reached(162, 8) && !power_reached(161, 8)) by (nonlinear_arith);
    assert(power_reached(180, 9) && !power_reached(179, 9)) by (nonlinear_arith);
    assert(power_reached(199, 10) && !power_reached(198, 10)) by (nonlinear_arith);
    assert(power_reached(220, 11) && !power_reached(219, 11)) by (nonlinear_arith);
    assert(power_reached(241, 12) && !power_reached(240, 12)) by (nonlinear_arith);
    assert(power_reached(264, 13) && !power_reached(263, 13)) by (nonlinear_arith);
    assert(power_reached(288, 14) && !power_reached(287, 14)) by (nonlinear_arith);
    assert(power_reached(314, 15) && !power_reached(313, 15)) by (nonlinear_arith);
    assert(power_reached(340, 16) && !power_reached(339, 16)) by (nonlinear_arith);
    assert(power_reached(368, 17) && !power_reached(367, 17)) by (nonlinear_arith);
    assert(power_reached(397, 18) && !power_reached(396, 18)) by (nonlinear_arith);
    assert(power_reached(427, 19) && !power_reached(426, 19)) by (nonlinear_arith);
    assert(power_reached(459, 20) && !power_reached(458, 20)) by (nonlinear_arith);
    assert(power_reached(492, 21) && !power_reached(491, 21)) by (nonlinear_arith);
    assert(power_reached(526, 22) && !power_reached(525, 22)) by (nonlinear_arith);
    assert(power_reached(562, 23) && !power_reached(561, 23)) by (nonlinear_arith);
    assert(power_reached(599, 24) && !power_reached(598, 24)) by (nonlinear_arith);
    assert(power_reached(638, 25) && !power_reached(637, 25)) by (nonlinear_arith);
    assert(power_reached(677, 26) && !power_reached(676, 26)) by (nonlinear_arith);
    assert(power_reached(719, 27) && !power_reached(718, 27)) by (nonlinear_arith);
    assert(power_reached(762, 28) && !power_reached(761, 28)) by (nonlinear_arith);
    assert(power_reached(806, 29) && !power_reached(805, 29)) by (nonlinear_arith);
    assert(power_reached(851, 30) && !power_reached(850, 30)) by (nonlinear_arith);
    assert(power_reached(898, 31) && !power_reached(897, 31)) by (nonlinear_arith);
    assert(power_reached(947, 32) && !power_reached(946, 32)) by (nonlinear_arith);
    reveal_with_fuel(thresholds_fit, 33);
}

proof fn lemma_thresholds_to_64()
    requires
        thresholds_fit(32),
    ensures
        thresholds_fit(64),
{
    assert(power_reached(997, 33) && !power_reached(996, 33)) by (nonlinear_arith);
    assert(power_reached(1_049, 34) && !power_reached(1_048, 34)) by (nonlinear_arith);
    assert(power_reached(1_102, 35) && !power_reached(1_101, 35)) by (nonlinear_arith);
    assert(power_reached(1_157, 36) && !power_reached(1_156, 36)) by (nonlinear_arith);
    assert(power_reached(1_213, 37) && !power_reached(1_212, 37)) by (nonlinear_arith);
    assert(power_reached(1_271, 38) && !power_reached(1_270, 38)) by (nonlinear_arith);
    assert(power_reached(1_330, 39) && !power_reached(1_329, 39)) by (nonlinear_arith);
    assert(power_reached(1_391, 40) && !power_reached(1_390, 40)) by (nonlinear_arith);
    assert(power_reached(1_454, 41) && !power_reached(1_453, 41)) by (nonlinear_arith);
    assert(power_reached(1_518, 42) && !power_reached(1_517, 42)) by (nonlinear_arith);
    assert(power_reached(1_584, 43) && !power_reached(1_583, 43)) by (nonlinear_arith);
    assert(power_reached(1_651, 44) && !power_reached(1_650, 44)) by (nonlinear_arith);
    assert(power_reached(1_720, 45) && !power_reached(1_719, 45)) by (nonlinear_arith);
    assert(power_reached(1_791, 46) && !power_reached(1_790, 46)) by (nonlinear_arith);
    assert(power_reached(1_863, 47) && !power_reached(1_862, 47)) by (nonlinear_arith);
    assert(power_reached(1_938, 48) && !power_reached(1_937, 48)) by (nonlinear_arith);
    assert(power_reached(2_013, 49) && !power_reached(2_012, 49)) by (nonlinear_arith);
    assert(power_reached(2_091, 50) && !power_reached(2_090, 50)) by (nonlinear_arith);
    assert(power_reached(2_170, 51) && !power_reached(2_169, 51)) by (nonlinear_arith);
    assert(power_reached(2_251, 52) && !power_reached(2_250, 52)) by (nonlinear_arith);
    assert(power_reached(2_334, 53) && !power_reached(2_333, 53)) by (nonlinear_arith);
    assert(power_reached(2_418, 54) && !power_reached(2_417, 54)) by (nonlinear_arith);
    assert(power_reached(2_504, 55) && !power_reached(2_503, 55)) by (nonlinear_arith);
    assert(power_reached(2_592, 56) && !power_reached(2_591, 56)) by (nonlinear_arith);
    assert(power_reached(2_682, 57) && !power_reached(2_681, 57)) by (nonlinear_arith);
    assert(power_reached(2_773, 58) && !power_reached(2_772, 58)) by (nonlinear_arith);
    assert(power_reached(2_867, 59) && !power_reached(2_866, 59)) by (nonlinear_arith);
    assert(power_reached(2_962, 60) && !power_reached(2_961, 60)) by (nonlinear_arith);
    assert(power_reached(3_059, 61) && !power_reached(3_058, 61)) by (nonlinear_arith);
    assert(power_reached(3_157, 62) && !power_reached(3_156, 62)) by (nonlinear_arith);
    assert(power_reached(3_258, 63) && !power_reached(3_257, 63)) by (nonlinear_arith);
    assert(power_reached(3_360, 64) && !power_reached(3_359, 64)) by (nonlinear_arith);
    reveal_with_fuel(thresholds_fit, 33);
}

proof fn lemma_thresholds_to_96()
    requires
        thresholds_fit(64),
    ensures
        thresholds_fit(96),
{
    assert(power_reached(3_465, 65) && !power_reached(3_464, 65)) by (nonlinear_arith);
    assert(power_reached(3_571, 66) && !power_reached(3_570, 66)) by (nonlinear_arith);
    assert(power_reached(3_679, 67) && !power_reached(3_678, 67)) by (nonlinear_arith);
    assert(power_reached(3_789, 68) && !power_reached(3_788, 68)) by (nonlinear_arith);
    assert(power_reached(3_901, 69) && !power_reached(3_900, 69)) by (nonlinear_arith);
    assert(power_reached(4_014, 70) && !power_reached(4_013, 70)) by (nonlinear_arith);
    assert(power_reached(4_130, 71) && !power_reached(4_129, 71)) by (nonlinear_arith);
    assert(power_reached(4_247, 72) && !power_reached(4_246, 72)) by (nonlinear_arith);
    assert(power_reached(4_367, 73) && !power_reached(4_366, 73)) by (nonlinear_arith);
    assert(power_reached(4_488, 74) && !power_reached(4_487, 74)) by (nonlinear_arith);
    assert(power_reached(4_612, 75) && !power_reached(4_611, 75)) by (nonlinear_arith);
    assert(power_reached(4_737, 76) && !power_reached(4_736, 76)) by (nonlinear_arith);
    assert(power_reached(4_864, 77) && !power_reached(4_863, 77)) by (nonlinear_arith);
    assert(power_reached(4_993, 78) && !power_reached(4_992, 78)) by (nonlinear_arith);
    assert(power_reached(5_125, 79) && !power_reached(5_124, 79)) by (nonlinear_arith);
    assert(power_reached(5_258, 80) && !power_reached(5_257, 80)) by (nonlinear_arith);
    assert(power_reached(5_393, 81) && !power_reached(5_392, 81)) by (nonlinear_arith);
    assert(power_reached(5_530, 82) && !power_reached(5_529, 82)) by (nonlinear_arith);
    assert(power_reached(5_669, 83) && !power_reached(5_668, 83)) by (nonlinear_arith);
    assert(power_reached(5_811, 84) && !power_reached(5_810, 84)) by (nonlinear_arith);
    assert(power_reached(5_954, 85) && !power_reached(5_953, 85)) by (nonlinear_arith);
    assert(power_reached(6_099, 86) && !power_reached(6_098, 86)) by (nonlinear_arith);
    assert(power_reached(6_247, 87) && !power_reached(6_246, 87)) by (nonlinear_arith);
    assert(power_reached(6_396, 88) && !power_reached(6_395, 88)) by (nonlinear_arith);
    assert(power_reached(6_547, 89) && !power_reached(6_546, 89)) by (nonlinear_arith);
    assert(power_reached(6_701, 90) && !power_reached(6_700, 90)) by (nonlinear_arith);
    assert(power_reached(6_857, 91) && !power_reached(6_856, 91)) by (nonlinear_arith);
    assert(power_reached(7_014, 92) && !power_reached(7_013, 92)) by (nonlinear_arith);
    assert(power_reached(7_174, 93) && !power_reached(7_173, 93)) by (nonlinear_arith);
    assert(power_reached(7_336, 94) && !power_reached(7_335, 94)) by (nonlinear_arith);
    assert(power_reached(7_500, 95) && !power_reached(7_499, 95)) by (nonlinear_arith);
    assert(power_reached(7_666, 96) && !power_reached(7_665, 96)) by (nonlinear_arith);
    reveal_with_fuel(thresholds_fit, 33);
}

proof fn lemma_thresholds_to_128()
    requires
        thresholds_fit(96),
    ensures
        thresholds_fit(128),
{
    assert(power_reached(7_835, 97) && !power_reached(7_834, 97)) by (nonlinear_arith);
    assert(power_reached(8_005, 98) && !power_reached(8_004, 98)) by (nonlinear_arith);
    assert(power_reached(8_178, 99) && !power_reached(8_177, 99)) by (nonlinear_arith);
    assert(power_reached(8_352, 100) && !power_reached(8_351, 100)) by (nonlinear_arith);
    assert(power_reached(8_529, 101) && !power_reached(8_528, 101)) by (nonlinear_arith);
    assert(power_reached(8_708, 102) && !power_reached(8_707, 102)) by (nonlinear_arith);
    assert(power_reached(8_889, 103) && !power_reached(8_888, 103)) by (nonlinear_arith);
    assert(power_reached(9_073, 104) && !power_reached(9_072, 104)) by (nonlinear_arith);
    assert(power_reached(9_258, 105) && !power_reached(9_257, 105)) by (nonlinear_arith);
    assert(power_reached(9_446, 106) && !power_reached(9_445, 106)) by (nonlinear_arith);
    assert(power_reached(9_636, 107) && !power_reached(9_635, 107)) by (nonlinear_arith);
    assert(power_reached(9_828, 108) && !power_reached(9_827, 108)) by (nonlinear_arith);
    assert(power_reached(10_023, 109) && !power_reached(10_022, 109)) by (nonlinear_arith);
    assert(power_reached(10_219, 110) && !power_reached(10_218, 110)) by (nonlinear_arith);
    assert(power_reached(10_418, 111) && !power_reached(10_417, 111)) by (nonlinear_arith);
    assert(power_reached(10_619, 112) && !power_reached(10_618, 112)) by (nonlinear_arith);
    assert(power_reached(10_823, 113) && !power_reached(10_822, 113)) by (nonlinear_arith);
    assert(power_reached(11_028, 114) && !power_reached(11_027, 114)) by (nonlinear_arith);
    assert(power_reached(11_236, 115) && !power_reached(11_235, 115)) by (nonlinear_arith);
    assert(power_reached(11_446, 116) && !power_reached(11_445, 116)) by (nonlinear_arith);
    assert(power_reached(11_659, 117) && !power_reached(11_658, 117)) by (nonlinear_arith);
    assert(power_reached(11_873, 118) && !power_reached(11_872, 118)) by (nonlinear_arith);
    assert(power_reached(12_090, 119) && !power_reached(12_089, 119)) by (nonlinear_arith);
    assert(power_reached(12_310, 120) && !power_reached(12_309, 120)) by (nonlinear_arith);
    assert(power_reached(12_531, 121) && !power_reached(12_530, 121)) by (nonlinear_arith);
    assert(power_reached(12_755, 122) && !power_reached(12_754, 122)) by (nonlinear_arith);
    assert(power_reached(12_981, 123) && !power_reached(12_980, 123)) by (nonlinear_arith);
    assert(power_reached(13_210, 124) && !power_reached(13_209, 124)) by (nonlinear_arith);
    assert(power_reached(13_441, 125) && !power_reached(13_440, 125)) by (nonlinear_arith);
    assert(power_reached(13_674, 126) && !power_reached(13_673, 126)) by (nonlinear_arith);
    assert(power_reached(13_909, 127) && !power_reached(13_908, 127)) by (nonlinear_arith);
    assert(power_reached(14_147, 128) && !power_reached(14_146, 128)) by (nonlinear_arith);
    reveal_with_fuel(thresholds_fit, 33);
}

proof fn lemma_thresholds_to_160()
    requires
        thresholds_fit(128),
    ensures
        thresholds_fit(160),
{
    assert(power_reached(14_387, 129) && !power_reached(14_386, 129)) by (nonlinear_arith);
    assert(power_reached(14_630, 130) && !power_reached(14_629, 130)) by (nonlinear_arith);
    assert(power_reached(14_875, 131) && !power_reached(14_874, 131)) by (nonlinear_arith);
    assert(power_reached(15_122, 132) && !power_reached(15_121, 132)) by (nonlinear_arith);
    assert(power_reached(15_372, 133) && !power_reached(15_371, 133)) by (nonlinear_arith);
    assert(power_reached(15_624, 134) && !power_reached(15_623, 134)) by (nonlinear_arith);
    assert(power_reached(15_879, 135) && !power_reached(15_878, 135)) by (nonlinear_arith);
    assert(power_reached(16_136, 136) && !power_reached(16_135, 136)) by (nonlinear_arith);
    assert(power_reached(16_395, 137) && !power_reached(16_394, 137)) by (nonlinear_arith);
    assert(power_reached(16_657, 138) && !power_reached(16_656, 138)) by (nonlinear_arith);
    assert(power_reached(16_921, 139) && !power_reached(16_920, 139)) by (nonlinear_arith);
    assert(power_reached(17_187, 140) && !power_reached(17_186, 140)) by (nonlinear_arith);
    assert(power_reached(17_456, 141) && !power_reached(17_455, 141)) by (nonlinear_arith);
    assert(power_reached(17_728, 142) && !power_reached(17_727, 142)) by (nonlinear_arith);
    assert(power_reached(18_002, 143) && !power_reached(18_001, 143)) by (nonlinear_arith);
    assert(power_reached(18_278, 144) && !power_reached(18_277, 144)) by (nonlinear_arith);
    assert(power_reached(18_557, 145) && !power_reached(18_556, 145)) by (nonlinear_arith);
    assert(power_reached(18_838, 146) && !power_reached(18_837, 146)) by (nonlinear_arith);
    assert(power_reached(19_122, 147) && !power_reached(19_121, 147)) by (nonlinear_arith);
    assert(power_reached(19_408, 148) && !power_reached(19_407, 148)) by (nonlinear_arith);
    assert(power_reached(19_697, 149) && !power_reached(19_696, 149)) by (nonlinear_arith);
    assert(power_reached(19_988, 150) && !power_reached(19_987, 150)) by (nonlinear_arith);
    assert(power_reached(20_282, 151) && !power_reached(20_281, 151)) by (nonlinear_arith);
    assert(power_reached(20_578, 152) && !power_reached(20_577, 152)) by (nonlinear_arith);
    assert(power_reached(20_877, 153) && !power_reached(20_876, 153)) by (nonlinear_arith);
    assert(power_reached(21_178, 154) && !power_reached(21_177, 154)) by (nonlinear_arith);
    assert(power_reached(21_482, 155) && !power_reached(21_481, 155)) by (nonlinear_arith);
    assert(power_reached(21_788, 156) && !power_reached(21_787, 156)) by (nonlinear_arith);
    assert(power_reached(22_097, 157) && !power_reached(22_096, 157)) by (nonlinear_arith);
    assert(power_reached(22_408, 158) && !power_reached(22_407, 158)) by (nonlinear_arith);
    assert(power_reached(22_722, 159) && !power_reached(22_721, 159)) by (nonlinear_arith);
    assert(power_reached(23_039, 160) && !power_reached(23_038, 160)) by (nonlinear_arith);
    reveal_with_fuel(thresholds_fit, 33);
}

proof fn lemma_thresholds_to_192()
    requires
        thresholds_fit(160),
    ensures
        thresholds_fit(192),
{
    assert(power_reached(23_358, 161) && !power_reached(23_357, 161)) by (nonlinear_arith);
    assert(power_reached(23_679, 162) && !power_reached(23_678, 162)) by (nonlinear_arith);
    assert(power_reached(24_003, 163) && !power_reached(24_002, 163)) by (nonlinear_arith);
    assert(power_reached(24_330, 164) && !power_reached(24_329, 164)) by (nonlinear_arith);
    assert(power_reached(24_659, 165) && !power_reached(24_658, 165)) by (nonlinear_arith);
    assert(power_reached(24_991, 166) && !power_reached(24_990, 166)) by (nonlinear_arith);
    assert(power_reached(25_326, 167) && !power_reached(25_325, 167)) by (nonlinear_arith);
    assert(power_reached(25_663, 168) && !power_reached(25_662, 168)) by (nonlinear_arith);
    assert(power_reached(26_002, 169) && !power_reached(26_001, 169)) by (nonlinear_arith);
    assert(power_reached(26_345, 170) && !power_reached(26_344, 170)) by (nonlinear_arith);
    assert(power_reached(26_689, 171) && !power_reached(26_688, 171)) by (nonlinear_arith);
    assert(power_reached(27_037, 172) && !power_reached(27_036, 172)) by (nonlinear_arith);
    assert(power_reached(27_387, 173) && !power_reached(27_386, 173)) by (nonlinear_arith);
    assert(power_reached(27_740, 174) && !power_reached(27_739, 174)) by (nonlinear_arith);
    assert(power_reached(28_095, 175) && !power_reached(28_094, 175)) by (nonlinear_arith);
    assert(power_reached(28_453, 176) && !power_reached(28_452, 176)) by (nonlinear_arith);
    assert(power_reached(28_814, 177) && !power_reached(28_813, 177)) by (nonlinear_arith);
    assert(power_reached(29_177, 178) && !power_reached(29_176, 178)) by (nonlinear_arith);
    assert(power_reached(29_543, 179) && !power_reached(29_542, 179)) by (nonlinear_arith);
    assert(power_reached(29_912, 180) && !power_reached(29_911, 180)) by (nonlinear_arith);
    assert(power_reached(30_283, 181) && !power_reached(30_282, 181)) by (nonlinear_arith);
    assert(power_reached(30_657, 182) && !power_reached(30_656, 182)) by (nonlinear_arith);
    assert(power_reached(31_034, 183) && !power_reached(31_033, 183)) by (nonlinear_arith);
    assert(power_reached(31_413, 184) && !power_reached(31_412, 184)) by (nonlinear_arith);
    assert(power_reached(31_795, 185) && !power_reached(31_794, 185)) by (nonlinear_arith);
    assert(power_reached(32_180, 186) && !power_reached(32_179, 186)) by (nonlinear_arith);
    assert(power_reached(32_568, 187) && !power_reached(32_567, 187)) by (nonlinear_arith);
    assert(power_reached(32_958, 188) && !power_reached(32_957, 188)) by (nonlinear_arith);
    assert(power_reached(33_351, 189) && !power_reached(33_350, 189)) by (nonlinear_arith);
    assert(power_reached(33_746, 190) && !power_reached(33_745, 190)) by (nonlinear_arith);
    assert(power_reached(34_144, 191) && !power_reached(34_143, 191)) by (nonlinear_arith);
    assert(power_reached(34_546, 192) && !power_reached(34_545, 192)) by (nonlinear_arith);
    reveal_with_fuel(thresholds_fit, 33);
}

proof fn lemma_thresholds_to_224()
    requires
        thresholds_fit(192),
    ensures
        thresholds_fit(224),
{
    assert(power_reached(34_949, 193) && !power_reached(34_948, 193)) by (nonlinear_arith);
    assert(power_reached(35_356, 194) && !power_reached(35_355, 194)) by (nonlinear_arith);
    assert(power_reached(35_765, 195) && !power_reached(35_764, 195)) by (nonlinear_arith);
    assert(power_reached(36_177, 196) && !power_reached(36_176, 196)) by (nonlinear_arith);
    assert(power_reached(36_592, 197) && !power_reached(36_591, 197)) by (nonlinear_arith);
    assert(power_reached(37_009, 198) && !power_reached(37_008, 198)) by (nonlinear_arith);
    assert(power_reached(37_430, 199) && !power_reached(37_429, 199)) by (nonlinear_arith);
    assert(power_reached(37_853, 200) && !power_reached(37_852, 200)) by (nonlinear_arith);
    assert(power_reached(38_279, 201) && !power_reached(38_278, 201)) by (nonlinear_arith);
    assert(power_reached(38_707, 202) && !power_reached(38_706, 202)) by (nonlinear_arith);
    assert(power_reached(39_139, 203) && !power_reached(39_138, 203)) by (nonlinear_arith);
    assert(power_reached(39_573, 204) && !power_reached(39_572, 204)) by (nonlinear_arith);
    assert(power_reached(40_010, 205) && !power_reached(40_009, 205)) by (nonlinear_arith);
    assert(power_reached(40_450, 206) && !power_reached(40_449, 206)) by (nonlinear_arith);
    assert(power_reached(40_892, 207) && !power_reached(40_891, 207)) by (nonlinear_arith);
    assert(power_reached(41_338, 208) && !power_reached(41_337, 208)) by (nonlinear_arith);
    assert(power_reached(41_786, 209) && !power_reached(41_785, 209)) by (nonlinear_arith);
    assert(power_reached(42_237, 210) && !power_reached(42_236, 210)) by (nonlinear_arith);
    assert(power_reached(42_691, 211) && !power_reached(42_690, 211)) by (nonlinear_arith);
    assert(power_reached(43_148, 212) && !power_reached(43_147, 212)) by (nonlinear_arith);
    assert(power_reached(43_607, 213) && !power_reached(43_606, 213)) by (nonlinear_arith);
    assert(power_reached(44_070, 214) && !power_reached(44_069, 214)) by (nonlinear_arith);
    assert(power_reached(44_535, 215) && !power_reached(44_534, 215)) by (nonlinear_arith);
    assert(power_reached(45_003, 216) && !power_reached(45_002, 216)) by (nonlinear_arith);
    assert(power_reached(45_474, 217) && !power_reached(45_473, 217)) by (nonlinear_arith);
    assert(power_reached(45_948, 218) && !power_reached(45_947, 218)) by (nonlinear_arith);
    assert(power_reached(46_425, 219) && !power_reached(46_424, 219)) by (nonlinear_arith);
    assert(power_reached(46_904, 220) && !power_reached(46_903, 220)) by (nonlinear_arith);
    assert(power_reached(47_387, 221) && !power_reached(47_386, 221)) by (nonlinear_arith);
    assert(power_reached(47_872, 222) && !power_reached(47_871, 222)) by (nonlinear_arith);
    assert(power_reached(48_360, 223) && !power_reached(48_359, 223)) by (nonlinear_arith);
    assert(power_reached(48_851, 224) && !power_reached(48_850, 224)) by (nonlinear_arith);
    reveal_with_fuel(thresholds_fit, 33);
}

proof fn lemma_thresholds_to_255()
    requires
        thresholds_fit(224),
    ensures
        thresholds_fit(255),
{
    assert(power_reached(49_345, 225) && !power_reached(49_344, 225)) by (nonlinear_arith);
    assert(power_reached(49_842, 226) && !power_reached(49_841, 226)) by (nonlinear_arith);
    assert(power_reached(50_342, 227) && !power_reached(50_341, 227)) by (nonlinear_arith);
    assert(power_reached(50_845, 228) && !power_reached(50_844, 228)) by (nonlinear_arith);
    assert(power_reached(51_350, 229) && !power_reached(51_349, 229)) by (nonlinear_arith);
    assert(power_reached(51_859, 230) && !power_reached(51_858, 230)) by (nonlinear_arith);
    assert(power_reached(52_370, 231) && !power_reached(52_369, 231)) by (nonlinear_arith);
    assert(power_reached(52_885, 232) && !power_reached(52_884, 232)) by (nonlinear_arith);
    assert(power_reached(53_402, 233) && !power_reached(53_401, 233)) by (nonlinear_arith);
    assert(power_reached(53_923, 234) && !power_reached(53_922, 234)) by (nonlinear_arith);
    assert(power_reached(54_446, 235) && !power_reached(54_445, 235)) by (nonlinear_arith);
    assert(power_reached(54_972, 236) && !power_reached(54_971, 236)) by (nonlinear_arith);
    assert(power_reached(55_501, 237) && !power_reached(55_500, 237)) by (nonlinear_arith);
    assert(power_reached(56_033, 238) && !power_reached(56_032, 238)) by (nonlinear_arith);
    assert(power_reached(56_568, 239) && !power_reached(56_567, 239)) by (nonlinear_arith);
    assert(power_reached(57_106, 240) && !power_reached(57_105, 240)) by (nonlinear_arith);
    assert(power_reached(57_647, 241) && !power_reached(57_646, 241)) by (nonlinear_arith);
    assert(power_reached(58_191, 242) && !power_reached(58_190, 242)) by (nonlinear_arith);
    assert(power_reached(58_738, 243) && !power_reached(58_737, 243)) by (nonlinear_arith);
    assert(power_reached(59_288, 244) && !power_reached(59_287, 244)) by (nonlinear_arith);
    assert(power_reached(59_841, 245) && !power_reached(59_840, 245)) by (nonlinear_arith);
    assert(power_reached(60_397, 246) && !power_reached(60_396, 246)) by (nonlinear_arith);
    assert(power_reached(60_956, 247) && !power_reached(60_955, 247)) by (nonlinear_arith);
    assert(power_reached(61_518, 248) && !power_reached(61_517, 248)) by (nonlinear_arith);
    assert(power_reached(62_083, 249) && !power_reached(62_082, 249)) by (nonlinear_arith);
    assert(power_reached(62_651, 250) && !power_reached(62_650, 250)) by (nonlinear_arith);
    assert(power_reached(63_222, 251) && !power_reached(63_221, 251)) by (nonlinear_arith);
    assert(power_reached(63_796, 252) && !power_reached(63_795, 252)) by (nonlinear_arith);
    assert(power_reached(64_373, 253) && !power_reached(64_372, 253)) by (nonlinear_arith);
    assert(power_reached(64_953, 254) && !power_reached(64_952, 254)) by (nonlinear_arith);
    assert(power_reached(65_536, 255) && !power_reached(65_535, 255)) by (nonlinear_arith);
    reveal_with_fuel(thresholds_fit, 32);
}

/// Every entry of the table is the least light that reaches its level.
pub proof fn lemma_thresholds()
    ensures
        thresholds_fit(255),
{
    lemma_thresholds_to_32();
    lemma_thresholds_to_64();
    lemma_thresholds_to_96();
    lemma_thresholds_to_128();
    lemma_thresholds_to_160();
    lemma_thresholds_to_192();
    lemma_thresholds_to_224();
    lemma_thresholds_to_255();
}

/// More light has the larger fifth power.
proof fn lemma_pow5_grows(a: int, b: int)
    requires
        0 <= a <= b,
    ensures
        pow5(a) <= pow5(b),
{
    assert(a * a <= b * b) by (nonlinear_arith)
        requires
            0 <= a <= b,
    ;
    assert(0 <= a * a) by (nonlinear_arith);
    assert(a * a * a <= b * b * b) by (nonlinear_arith)
        requires
            0 <= a <= b,
            0 <= a * a <= b * b,
    ;
    assert(0 <= a * a * a) by (nonlinear_arith)
        requires
            0 <= a,
    ;
    assert((a * a * a) * (a * a) <= (b * b * b) * (b * b)) by (nonlinear_arith)
        requires
            0 <= a * a <= b * b,
            0 <= a * a * a <= b * b * b,
    ;
    assert(pow5(a) == (a * a * a) * (a * a)) by (nonlinear_arith);
    assert(pow5(b) == (b * b * b) * (b * b)) by (nonlinear_arith);
}

/// Light reaches a level exactly where it is at least the level's threshold.
pub proof fn lemma_reached_from_threshold(d: int, k: int)
    requires
        0 <= d,
        1 <= k <= 255,
    ensures
        power_reached(d, k) <==> THRESHOLDS[k] <= d,
{
    lemma_thresholds();
    lemma_threshold_fits(255, k);
    let t = THRESHOLDS[k] as int;
    let scale = pow12(269_025);
    assert(scale > 0) by (nonlinear_arith)
        requires
            scale == pow12(269_025),
    ;
    if t <= d {
        lemma_pow5_grows(t, d);
        assert(pow5(t) * scale <= pow5(d) * scale) by (nonlinear_arith)
            requires
                pow5(t) <= pow5(d),
                scale > 0,
        ;
    } else {
        if t >= 1 {
            lemma_pow5_grows(d, t - 1);
            assert(pow5(d) * scale <= pow5(t - 1) * scale) by (nonlinear_arith)
                requires
                    pow5(d) <= pow5(t - 1),
                    scale > 0,
            ;
        }
    }
}

/// The thresholds stand in ascending order.
proof fn lemma_thresholds_ascend(j: int, k: int)
    requires
        0 <= j <= k <= 255,
    ensures
        THRESHOLDS[j] <= THRESHOLDS[k],
    decreases k - j,
{
    if j < k {
        lemma_thresholds();
        lemma_threshold_fits(255, k);
        lemma_thresholds_ascend(j, k - 1);
    }
}

/// The highest level reached is the last one whose threshold the light
/// meets.
proof fn lemma_top_level(d: int, j: int, k: int)
    requires
        0 <= d,
        0 <= j <= k <= 255,
        THRESHOLDS[j] <= d,
        j < 255 ==> THRESHOLDS[j + 1] > d,
    ensures
        top_level(d, k) == j,
    decreases k,
{
    if k > 0 {
        lemma_reached_from_threshold(d, k);
        if k > j {
            lemma_thresholds_ascend(j + 1, k);
            lemma_top_level(d, j, k - 1);
        }
    }
}

/// The byte for an amount of linear light in 65536ths.
pub fn quantize(d: i128) -> (level: u8)
    ensures
        level == encoded(d as int),
{
    if d <= 0 {
        return 0;
    }
    if d >= 65_536 {
        return 255;
    }
    if d * 10_000_000 < 31_308 * 65_536 {
        return (d * 32_946 / 655_360) as u8;
    }
    let light: u32 = d as u32;
    let mut low: usize = 0;
    let mut high: usize = 256;
    while high - low > 1
        invariant
            low < high <= 256,
            THRESHOLDS[low as int] <= light,
            high < 256 ==> THRESHOLDS[high as int] > light,
        decreases high - low,
    {
        let middle: usize = low + (high - low) / 2;
        if THRESHOLDS[middle] <= light {
            low = middle;
        } else {
            high = middle;
        }
    }
    proof {
        lemma_top_level(d as int, low as int, 255);
    }
    low as u8
}

} // verus!
