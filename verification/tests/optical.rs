use matter::binary::single::Binary32;
use matter::optical::{
    dry_quartz_sand, pure_water, spectral_band_average, ABSORPTION_UNITS_PER_M,
    PURE_WATER_ABSORPTION,
};

fn b(x: f32) -> Binary32 {
    Binary32::from_bits(x.to_bits())
}

fn r(x: Binary32) -> f32 {
    f32::from_bits(x.to_bits())
}

fn channels(a: [Binary32; 3]) -> [f32; 3] {
    [r(a[0]), r(a[1]), r(a[2])]
}

fn beer_lambert_transmittance(sigma: [f32; 3], density_ratio: f32, path_m: f32) -> [f32; 3] {
    [
        (-sigma[0] * density_ratio * path_m).exp(),
        (-sigma[1] * density_ratio * path_m).exp(),
        (-sigma[2] * density_ratio * path_m).exp(),
    ]
}

#[test]
fn sand_is_scattering_dominated_and_finer_grains_scatter_more() {
    let medium = dry_quartz_sand(b(1.0e-3));
    let mean_absorption = channels(medium.absorption_m_inv).iter().sum::<f32>() / 3.0;
    assert!(r(medium.reduced_scattering_m_inv) > 1000.0 * mean_absorption);
    let fine = dry_quartz_sand(b(0.1e-3));
    assert!(r(fine.reduced_scattering_m_inv) > r(medium.reduced_scattering_m_inv));
}

#[test]
fn sand_coefficients_are_exact() {
    let medium = dry_quartz_sand(b(0.25));
    assert_eq!(channels(medium.absorption_m_inv), [0.01, 0.01, 0.01]);
    assert_eq!(r(medium.reduced_scattering_m_inv), 4.0);
    assert_eq!(r(dry_quartz_sand(b(0.0)).reduced_scattering_m_inv), 0.0);
    assert_eq!(r(dry_quartz_sand(b(-1.0)).reduced_scattering_m_inv), 0.0);
    assert_eq!(r(dry_quartz_sand(b(f32::NAN)).reduced_scattering_m_inv), 0.0);
}

#[test]
fn band_averaged_water_absorbs_red_far_more_than_blue() {
    let water = pure_water();
    let [red, green, blue] = channels(water.absorption_m_inv);
    assert!(red > green && green > blue, "got {:?}", [red, green, blue]);
    assert!(red / blue > 20.0, "red/blue absorption ratio {:.1}", red / blue);
}

#[test]
fn band_averages_stay_within_the_measured_spectrum() {
    let [red, green, blue] = channels(pure_water().absorption_m_inv);
    let units = ABSORPTION_UNITS_PER_M as f32;
    let lowest = PURE_WATER_ABSORPTION
        .iter()
        .fold(f32::INFINITY, |a, (_, v)| a.min(*v as f32 / units));
    let highest = PURE_WATER_ABSORPTION
        .iter()
        .fold(f32::NEG_INFINITY, |a, (_, v)| a.max(*v as f32 / units));
    for value in [red, green, blue] {
        assert!((lowest..=highest).contains(&value));
    }
    assert!(blue < 0.03, "blue band average {blue}");
}

#[test]
fn path_length_not_coefficient_is_what_makes_water_blue() {
    let sigma = channels(pure_water().absorption_m_inv);
    let glass = beer_lambert_transmittance(sigma, 1.0, 0.1);
    assert!(glass.iter().all(|t| *t > 0.94), "got {glass:?}");
    let sea = beer_lambert_transmittance(sigma, 1.0, 10.0);
    assert!(sea[0] < 0.2 && sea[2] > 0.8, "got {sea:?}");
}

#[test]
fn water_coefficients_have_their_documented_size() {
    let water = pure_water();
    let [red, green, blue] = channels(water.absorption_m_inv);
    assert!((red - 0.217).abs() < 5.0e-4, "red {red}");
    assert!((green - 0.056).abs() < 5.0e-4, "green {green}");
    assert!((blue - 0.0088).abs() < 5.0e-5, "blue {blue}");
    assert_eq!(r(water.reduced_scattering_m_inv), 0.0029);
}

#[test]
fn a_flat_spectrum_averages_to_itself() {
    let mut flat = PURE_WATER_ABSORPTION;
    for sample in flat.iter_mut() {
        sample.1 = 100_000;
    }
    let average = channels(spectral_band_average(&flat));
    for value in average {
        assert!((value - 1.0).abs() < 1.0e-6, "got {value}");
    }
}
