use slm_aim::calibration::{scale_factor, scale_index, ScaleError};
use slm_aim::schema::SLMCalibScaling;

fn table() -> SLMCalibScaling {
    SLMCalibScaling {
        known_wavelengths: vec![450, 500, 550],
        scale_factor_bits: vec![200.0f32.to_bits(), 210.0f32.to_bits(), 220.0f32.to_bits()],
    }
}

#[test]
fn exact_wavelength_is_taken() {
    assert_eq!(scale_index(&vec![450, 500, 550], 500), Some(1));
    assert_eq!(scale_factor(&table(), 500).map(f32::from_bits), Ok(210.0));
}

#[test]
fn closest_wavelength_is_taken() {
    assert_eq!(scale_index(&vec![450, 500, 550], 530), Some(2));
    assert_eq!(scale_factor(&table(), 530).map(f32::from_bits), Ok(220.0));
    assert_eq!(scale_index(&vec![450, 500, 550], 0), Some(0));
    assert_eq!(scale_index(&vec![450, 500, 550], u32::MAX), Some(2));
}

#[test]
fn earlier_entry_wins_a_tie() {
    assert_eq!(scale_index(&vec![450, 500, 550], 525), Some(1));
    assert_eq!(scale_factor(&table(), 525).map(f32::from_bits), Ok(210.0));
    assert_eq!(scale_index(&vec![550, 500, 450], 525), Some(0));
    assert_eq!(scale_index(&vec![500, 500], 500), Some(0));
}

#[test]
fn empty_or_short_table_is_an_error() {
    assert_eq!(scale_index(&Vec::new(), 500), None);
    let empty = SLMCalibScaling { known_wavelengths: vec![], scale_factor_bits: vec![] };
    assert_eq!(scale_factor(&empty, 500), Err(ScaleError::NoKnownWavelengths));
    let short = SLMCalibScaling { known_wavelengths: vec![450, 500], scale_factor_bits: vec![7] };
    assert_eq!(scale_factor(&short, 500), Err(ScaleError::MissingFactor));
    assert_eq!(scale_factor(&short, 450), Ok(7));
}
