use vstd::prelude::*;

use crate::binary::single::Binary32;

verus! {

/// Absorption and reduced scattering per metre; absorption per colour channel.
#[derive(Clone, Copy, Debug, PartialEq, Eq)]
pub struct OpticalCoefficientsSi {
    /// Red, green and blue.
    pub absorption_m_inv: [Binary32; 3],
    pub reduced_scattering_m_inv: Binary32,
}

/// Number of samples of a spectrum.
pub const SAMPLES: usize = 140;

/// Wavelength of the first sample, in tenths of a nanometre.
pub const FIRST_WAVELENGTH: u32 = 3800;

/// Distance of two samples, in tenths of a nanometre.
pub const WAVELENGTH_STEP: u32 = 25;

/// Absorption is tabulated in units of 1 / 100000 per metre.
pub const ABSORPTION_UNITS_PER_M: u64 = 100_000;

/// Measured absorption of pure water: wavelength in tenths of a nanometre,
/// absorption in units of 1 / 100000 per metre.
pub const PURE_WATER_ABSORPTION: [(u32, u32); 140] = [
    (3800, 1137), (3825, 1044), (3850, 941), (3875, 917), (3900, 851),
    (3925, 829), (3950, 813), (3975, 775), (4000, 663), (4025, 579),
    (4050, 530), (4075, 503), (4100, 473), (4125, 452), (4150, 444),
    (4175, 442), (4200, 454), (4225, 474), (4250, 478), (4275, 482),
    (4300, 495), (4325, 504), (4350, 530), (4375, 580), (4400, 635),
    (4425, 696), (4450, 751), (4475, 830), (4500, 922), (4525, 969),
    (4550, 962), (4575, 957), (4600, 979), (4625, 1005), (4650, 1011),
    (4675, 1020), (4700, 1060), (4725, 1090), (4750, 1140), (4775, 1210),
    (4800, 1270), (4825, 1310), (4850, 1360), (4875, 1440), (4900, 1500),
    (4925, 1620), (4950, 1730), (4975, 1910), (5000, 2040), (5025, 2280),
    (5050, 2560), (5075, 2800), (5100, 3250), (5125, 3720), (5150, 3960),
    (5175, 3990), (5200, 4090), (5225, 4160), (5250, 4170), (5275, 4280),
    (5300, 4340), (5325, 4470), (5350, 4520), (5375, 4660), (5400, 4740),
    (5425, 4890), (5450, 5110), (5475, 5370), (5500, 5650), (5525, 5930),
    (5550, 5960), (5575, 6060), (5600, 6190), (5625, 6400), (5650, 6420),
    (5675, 6720), (5700, 6950), (5725, 7330), (5750, 7720), (5775, 8360),
    (5800, 8960), (5825, 9890), (5850, 11000), (5875, 12200), (5900, 13510),
    (5925, 15160), (5950, 16720), (5975, 19250), (6000, 22240), (6025, 24700),
    (6050, 25770), (6075, 26290), (6100, 26440), (6125, 26650), (6150, 26780),
    (6175, 27070), (6200, 27550), (6225, 28100), (6250, 28340), (6275, 29040),
    (6300, 29160), (6325, 29950), (6350, 30120), (6375, 30770), (6400, 31080),
    (6425, 32200), (6450, 32500), (6475, 33500), (6500, 34000), (6525, 35800),
    (6550, 37100), (6575, 39300), (6600, 41000), (6625, 42400), (6650, 42900),
    (6675, 43600), (6700, 43900), (6725, 44800), (6750, 44800), (6775, 46100),
    (6800, 46500), (6825, 47800), (6850, 48600), (6875, 50200), (6900, 51600),
    (6925, 53800), (6950, 55900), (6975, 59200), (7000, 62400), (7025, 66300),
    (7050, 70400), (7075, 75600), (7100, 82700), (7125, 91400), (7150, 100700),
    (7175, 111900), (7200, 123100), (7225, 135600), (7250, 148900), (7275, 167800),
];

/// Sensitivity of the linear sRGB channels (red, green, blue) at each sample, in units
/// of 1 / 10000: the analytic fit of the CIE 1931 standard observer of Wyman, Sloan and
/// Shirley (Journal of Computer Graphics Techniques 2(2), 2013), taken to the linear
/// sRGB primaries of IEC 61966-2-1, negative lobes set to zero.
pub const CHANNEL_SENSITIVITY: [(u32, u32, u32); 140] = [
    (0, 6, 71), (0, 6, 95), (0, 6, 126), (0, 5, 166),
    (0, 1, 217), (0, 0, 284), (0, 0, 372), (0, 0, 488),
    (52, 0, 646), (129, 0, 864), (235, 0, 1168), (369, 0, 1593),
    (529, 0, 2179), (706, 0, 2975), (888, 0, 4022), (1064, 0, 5351),
    (1224, 0, 6961), (1365, 0, 8816), (1493, 0, 10831), (1625, 0, 12874),
    (1782, 0, 14784), (1983, 0, 16388), (2237, 0, 17536), (2533, 0, 18136),
    (2683, 0, 18492), (2591, 0, 18756), (2373, 0, 18925), (2089, 0, 18993),
    (1745, 0, 18955), (1348, 0, 18809), (904, 0, 18554), (422, 0, 18191),
    (0, 0, 17711), (0, 0, 16996), (0, 0, 16043), (0, 0, 14896),
    (0, 361, 13614), (0, 738, 12261), (0, 1131, 10897), (0, 1541, 9576),
    (0, 1968, 8337), (0, 2413, 7206), (0, 2876, 6193), (0, 3361, 5298),
    (0, 3870, 4514), (0, 4407, 3827), (0, 4977, 3222), (0, 5583, 2685),
    (0, 6231, 2203), (0, 6925, 1764), (0, 7667, 1362), (0, 8455, 990),
    (0, 9281, 644), (0, 10130, 322), (0, 10985, 24), (0, 11820, 0),
    (0, 12609, 0), (0, 13324, 0), (0, 13936, 0), (0, 14421, 0),
    (0, 14763, 0), (0, 14968, 0), (0, 15101, 0), (0, 15166, 0),
    (0, 15161, 0), (0, 15086, 0), (0, 14942, 0), (0, 14730, 0),
    (0, 14452, 0), (31, 14111, 0), (1394, 13711, 0), (2819, 13256, 0),
    (4293, 12751, 0), (5805, 12201, 0), (7342, 11612, 0), (8891, 10989, 0),
    (10439, 10337, 0), (11980, 9651, 0), (13500, 8936, 0), (14985, 8199, 0),
    (16419, 7446, 0), (17788, 6684, 0), (19076, 5921, 0), (20272, 5163, 0),
    (21361, 4417, 0), (22334, 3689, 0), (23180, 2985, 0), (23893, 2310, 0),
    (24466, 1670, 0), (24852, 1080, 0), (25020, 554, 0), (24974, 93, 0),
    (24722, 0, 0), (24274, 0, 0), (23647, 0, 0), (22858, 0, 0),
    (21927, 0, 0), (20876, 0, 0), (19728, 0, 0), (18507, 0, 0),
    (17235, 0, 0), (15934, 0, 0), (14626, 0, 0), (13329, 0, 0),
    (12061, 0, 0), (10836, 0, 0), (9666, 0, 0), (8561, 0, 0),
    (7529, 0, 0), (6574, 0, 0), (5699, 0, 0), (4906, 0, 0),
    (4192, 0, 0), (3557, 0, 0), (2995, 0, 0), (2504, 0, 0),
    (2078, 0, 0), (1712, 0, 0), (1399, 0, 0), (1135, 0, 0),
    (914, 0, 0), (729, 8, 0), (578, 17, 0), (454, 23, 0),
    (353, 27, 0), (272, 28, 0), (208, 28, 0), (158, 27, 0),
    (118, 26, 0), (87, 24, 0), (64, 22, 0), (46, 19, 0),
    (33, 17, 0), (23, 15, 0), (16, 13, 0), (10, 11, 0),
    (7, 9, 0), (4, 7, 0), (2, 6, 0), (1, 5, 0),
];

/// Scattering of pure water per metre, 0.0029.
pub const PURE_WATER_SCATTERING_M_INV: u32 = 0x3b3e_0ded;

/// Absorption of bulk quartz per metre, 0.01: flat across the visible band.
pub const DRY_QUARTZ_ABSORPTION_M_INV: u32 = 0x3c23_d70a;

/// The samples stand at the wavelengths that the sensitivities are given for.
pub open spec fn on_grid(spectrum: Seq<(u32, u32)>) -> bool {
    &&& spectrum.len() == SAMPLES
    &&& forall|i: int|
        0 <= i < SAMPLES ==> (#[trigger] spectrum[i]).0 == FIRST_WAVELENGTH + i * WAVELENGTH_STEP
}

/// Sensitivity of a channel at a sample.
pub open spec fn weight(channel: int, i: int) -> nat {
    let w = CHANNEL_SENSITIVITY[i];
    if channel == 0 {
        w.0 as nat
    } else if channel == 1 {
        w.1 as nat
    } else {
        w.2 as nat
    }
}

/// Sum of the sensitivities of a channel over the first `n` samples.
pub open spec fn weight_sum(channel: int, n: nat) -> nat
    decreases n,
{
    if n == 0 {
        0
    } else {
        weight_sum(channel, (n - 1) as nat) + weight(channel, n - 1)
    }
}

/// Sum of the weighted absorptions over the first `n` samples.
pub open spec fn weighted_sum(spectrum: Seq<(u32, u32)>, channel: int, n: nat) -> nat
    decreases n,
{
    if n == 0 {
        0
    } else {
        weighted_sum(spectrum, channel, (n - 1) as nat) + weight(channel, n - 1) * spectrum[n
            - 1].1 as nat
    }
}

/// The weighted mean of a spectrum in a channel, per metre.
pub open spec fn band_average(spectrum: Seq<(u32, u32)>, channel: int) -> Binary32 {
    Binary32::from_integer(weighted_sum(spectrum, channel, SAMPLES as nat) as u64).div(
        Binary32::from_integer(
            (weight_sum(channel, SAMPLES as nat) * ABSORPTION_UNITS_PER_M) as u64,
        ),
    )
}

/// The mean over the first `n` samples lies between the extremes of the samples.
pub proof fn law_band_average_within_spectrum(
    spectrum: Seq<(u32, u32)>,
    channel: int,
    n: nat,
    lowest: nat,
    highest: nat,
)
    requires
        forall|i: int| 0 <= i < n ==> lowest <= (#[trigger] spectrum[i]).1 <= highest,
    ensures
        lowest * weight_sum(channel, n) <= weighted_sum(spectrum, channel, n),
        weighted_sum(spectrum, channel, n) <= highest * weight_sum(channel, n),
    decreases n,
{
    if n > 0 {
        let m = (n - 1) as nat;
        law_band_average_within_spectrum(spectrum, channel, m, lowest, highest);
        let w = weight(channel, n - 1);
        let v = spectrum[n - 1].1 as nat;
        assert(lowest * (weight_sum(channel, m) + w) == lowest * weight_sum(channel, m) + lowest
            * w) by (nonlinear_arith);
        assert(highest * (weight_sum(channel, m) + w) == highest * weight_sum(channel, m) + highest
            * w) by (nonlinear_arith);
        assert(lowest * w <= w * v && w * v <= highest * w) by (nonlinear_arith)
            requires
                lowest <= v <= highest,
        ;
    } else {
        assert(lowest * 0 == 0 && highest * 0 == 0) by (nonlinear_arith);
    }
}

/// The three channel averages of a measured spectrum.
pub fn spectral_band_average(spectrum: &[(u32, u32); 140]) -> (r: [Binary32; 3])
    requires
        on_grid(spectrum@),
    ensures
        r[0] == band_average(spectrum@, 0),
        r[1] == band_average(spectrum@, 1),
        r[2] == band_average(spectrum@, 2),
{
    let table = CHANNEL_SENSITIVITY;
    let mut n0: u64 = 0;
    let mut n1: u64 = 0;
    let mut n2: u64 = 0;
    let mut d0: u64 = 0;
    let mut d1: u64 = 0;
    let mut d2: u64 = 0;
    let mut i: usize = 0;
    proof {
        lemma_sensitivity_bound();
    }
    while i < SAMPLES
        invariant
            i <= SAMPLES,
            table == CHANNEL_SENSITIVITY,
            spectrum@.len() == SAMPLES,
            forall|j: int| 0 <= j < SAMPLES ==> weight(0, j) <= 30000 && weight(1, j) <= 30000 && (
            #[trigger] weight(2, j)) <= 30000,
            n0 == weighted_sum(spectrum@, 0, i as nat),
            n1 == weighted_sum(spectrum@, 1, i as nat),
            n2 == weighted_sum(spectrum@, 2, i as nat),
            d0 == weight_sum(0, i as nat),
            d1 == weight_sum(1, i as nat),
            d2 == weight_sum(2, i as nat),
            n0 <= i * 30000 * 0x1_0000_0000,
            n1 <= i * 30000 * 0x1_0000_0000,
            n2 <= i * 30000 * 0x1_0000_0000,
            d0 <= i * 30000,
            d1 <= i * 30000,
            d2 <= i * 30000,
        decreases SAMPLES - i,
    {
        let w = table[i];
        let v: u64 = spectrum[i].1 as u64;
        proof {
            assert(weight(2, i as int) <= 30000);
            assert(w.0 * v <= 30000 * 0x1_0000_0000 && w.1 * v <= 30000 * 0x1_0000_0000 && w.2 * v
                <= 30000 * 0x1_0000_0000) by (nonlinear_arith)
                requires
                    w.0 <= 30000,
                    w.1 <= 30000,
                    w.2 <= 30000,
                    v < 0x1_0000_0000,
            ;
        }
        n0 = n0 + w.0 as u64 * v;
        n1 = n1 + w.1 as u64 * v;
        n2 = n2 + w.2 as u64 * v;
        d0 = d0 + w.0 as u64;
        d1 = d1 + w.1 as u64;
        d2 = d2 + w.2 as u64;
        i = i + 1;
    }
    [
        Binary32::from_integer(n0).div(Binary32::from_integer(d0 * ABSORPTION_UNITS_PER_M)),
        Binary32::from_integer(n1).div(Binary32::from_integer(d1 * ABSORPTION_UNITS_PER_M)),
        Binary32::from_integer(n2).div(Binary32::from_integer(d2 * ABSORPTION_UNITS_PER_M)),
    ]
}

proof fn lemma_sensitivity_bound()
    ensures
        forall|j: int| 0 <= j < SAMPLES ==> weight(0, j) <= 30000 && weight(1, j) <= 30000 && (
        #[trigger] weight(2, j)) <= 30000,
{
}

/// Pure water: the band averages of its measured absorption.
pub fn pure_water() -> (r: OpticalCoefficientsSi)
    ensures
        r.absorption_m_inv[0] == band_average(PURE_WATER_ABSORPTION@, 0),
        r.absorption_m_inv[1] == band_average(PURE_WATER_ABSORPTION@, 1),
        r.absorption_m_inv[2] == band_average(PURE_WATER_ABSORPTION@, 2),
        r.reduced_scattering_m_inv == Binary32::from_bits(PURE_WATER_SCATTERING_M_INV),
{
    let spectrum = PURE_WATER_ABSORPTION;
    OpticalCoefficientsSi {
        absorption_m_inv: spectral_band_average(&spectrum),
        reduced_scattering_m_inv: Binary32::from_bits(PURE_WATER_SCATTERING_M_INV),
    }
}

/// A dry bed of quartz grains: light scatters about once per grain, so the reduced
/// scattering is one over the grain diameter.
pub fn dry_quartz_sand(grain_diameter_m: Binary32) -> (r: OpticalCoefficientsSi)
    ensures
        forall|c: int|
            0 <= c < 3 ==> #[trigger] r.absorption_m_inv[c] == Binary32::from_bits(
                DRY_QUARTZ_ABSORPTION_M_INV,
            ),
        r.reduced_scattering_m_inv == if grain_diameter_m.gt(Binary32::zero()) {
            Binary32::one().div(grain_diameter_m)
        } else {
            Binary32::zero()
        },
{
    let a = Binary32::from_bits(DRY_QUARTZ_ABSORPTION_M_INV);
    let scattering = if grain_diameter_m.gt(Binary32::zero()) {
        Binary32::one().div(grain_diameter_m)
    } else {
        Binary32::zero()
    };
    OpticalCoefficientsSi { absorption_m_inv: [a, a, a], reduced_scattering_m_inv: scattering }
}

} // verus!
