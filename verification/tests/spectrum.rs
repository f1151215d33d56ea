use rtrace::spectrum::{wavelength_to_cie, Cie, CIE_X, CIE_Y, CIE_Z, STEEPEST};

fn cie(x: u64, y: u64, z: u64) -> Cie {
    Cie { x, y, z }
}

#[test]
fn response_on_the_grid_is_the_table() {
    assert_eq!(wavelength_to_cie(380_000), cie(1_368, 39, 6_450));
    assert_eq!(wavelength_to_cie(555_000), cie(512_050, 1_000_000, 5_750));
    assert_eq!(wavelength_to_cie(780_000), cie(42, 15, 0));
    for i in 0..81 {
        let found = wavelength_to_cie(380_000 + 5_000 * i as u32);
        assert_eq!(found, cie(CIE_X[i] as u64, CIE_Y[i] as u64, CIE_Z[i] as u64));
    }
}

#[test]
fn response_between_grid_points_is_their_blend() {
    assert_eq!(wavelength_to_cie(557_500), cie(553_275, 997_500, 4_825));
    assert_eq!(wavelength_to_cie(379_900), cie(1_340, 38, 6_321));
    assert_eq!(wavelength_to_cie(380_100), cie(1_385, 39, 6_532));
    assert_eq!(wavelength_to_cie(377_500), cie(684, 19, 3_225));
    assert_eq!(wavelength_to_cie(782_500), cie(21, 7, 0));
}

#[test]
fn response_outside_the_visible_band_is_nothing() {
    for wavelength in [0, 1, 300_000, 374_999, 375_000, 784_999, 785_000, 900_000, u32::MAX] {
        assert_eq!(wavelength_to_cie(wavelength), cie(0, 0, 0));
    }
}

#[test]
fn response_is_continuous_across_the_edges_of_the_table() {
    let below = wavelength_to_cie(379_900);
    let above = wavelength_to_cie(380_100);
    assert!(above.x - below.x <= 200 * STEEPEST as u64);
    assert!(above.z - below.z <= 200 * STEEPEST as u64);
    let mut last = wavelength_to_cie(370_000);
    for wavelength in 370_001..790_000u32 {
        let next = wavelength_to_cie(wavelength);
        assert!(next.x.abs_diff(last.x) <= STEEPEST as u64);
        assert!(next.y.abs_diff(last.y) <= STEEPEST as u64);
        assert!(next.z.abs_diff(last.z) <= STEEPEST as u64);
        last = next;
    }
}
