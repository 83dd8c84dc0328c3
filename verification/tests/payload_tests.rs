use slm_aim::payload::{
    decode_image_data, decode_raster, raster_from_bytes, samples_from_le_bytes, split_image_data,
    ImageData, ImageDataError, Raster, RasterError,
};
use slm_aim::schema::CorrectionPatternDeltas;

fn encode(values: &[f32]) -> String {
    let mut bytes: Vec<u8> = Vec::new();
    for v in values {
        bytes.extend_from_slice(&v.to_le_bytes());
    }
    base64::encode(bytes)
}

#[test]
fn raster_round_trip_is_bit_identical() {
    let values = [0.0f32, -0.1, 6.183_185, 1.0e-30, f32::MAX, -0.0];
    let deltas = CorrectionPatternDeltas {
        wavelength: 488,
        imagedata: encode(&values),
        shape_xy: [2, 3],
    };
    let raster = decode_raster(&deltas).unwrap();
    assert_eq!(raster.shape, [2, 3]);
    let back: Vec<u32> = values.iter().map(|v| v.to_bits()).collect();
    assert_eq!(raster.samples, back);
    let floats: Vec<f32> = raster.samples.iter().map(|b| f32::from_bits(*b)).collect();
    assert_eq!(floats[1], -0.1);
}

#[test]
fn raster_of_zeros_decodes_to_zeros() {
    let deltas = CorrectionPatternDeltas {
        wavelength: 488,
        imagedata: encode(&[0.0; 4]),
        shape_xy: [2, 2],
    };
    assert_eq!(decode_raster(&deltas), Ok(Raster { shape: [2, 2], samples: vec![0; 4] }));
}

#[test]
fn raster_errors() {
    let wrong_shape = CorrectionPatternDeltas {
        wavelength: 488,
        imagedata: encode(&[1.0, 2.0, 3.0]),
        shape_xy: [2, 2],
    };
    assert_eq!(decode_raster(&wrong_shape), Err(RasterError::Shape));
    let not_base64 = CorrectionPatternDeltas {
        wavelength: 488,
        imagedata: "not base64!".to_string(),
        shape_xy: [0, 0],
    };
    assert_eq!(decode_raster(&not_base64), Err(RasterError::Encoding));
    assert_eq!(
        raster_from_bytes(&vec![1, 2, 3, 4], [usize::MAX, 2]),
        Err(RasterError::Shape)
    );
    assert_eq!(
        raster_from_bytes(&vec![], [0, 7]),
        Ok(Raster { shape: [0, 7], samples: vec![] })
    );
}

#[test]
fn samples_are_little_endian() {
    assert_eq!(
        samples_from_le_bytes(&vec![0x78, 0x56, 0x34, 0x12, 0xff, 0xff, 0xff, 0xff, 9]),
        vec![0x1234_5678, u32::MAX]
    );
    assert_eq!(samples_from_le_bytes(&vec![1, 2, 3]), Vec::<u32>::new());
    assert_eq!(samples_from_le_bytes(&1.5f32.to_le_bytes().to_vec()), vec![1.5f32.to_bits()]);
}

#[test]
fn image_data_is_split_at_the_mark() {
    assert_eq!(
        split_image_data("data:image/png;base64,aGVsbG8="),
        Ok(("png".to_string(), "aGVsbG8=".to_string()))
    );
    assert_eq!(
        split_image_data("a/b/c;base64,XX;base64,YY"),
        Ok(("b".to_string(), "XX".to_string()))
    );
    assert_eq!(split_image_data("x/;base64,"), Ok(("".to_string(), "".to_string())));
}

#[test]
fn image_data_errors() {
    assert_eq!(split_image_data("data:image/png,aGVsbG8="), Err(ImageDataError::MissingBody));
    assert_eq!(split_image_data(""), Err(ImageDataError::MissingBody));
    assert_eq!(split_image_data("png;base64,aGVsbG8="), Err(ImageDataError::MissingExtension));
    assert_eq!(split_image_data(";base64,a/b"), Err(ImageDataError::MissingExtension));
    assert_eq!(decode_image_data("image/png;base64,@@@"), Err(ImageDataError::Encoding));
}

#[test]
fn image_data_is_decoded() {
    assert_eq!(
        decode_image_data("data:image/png;base64,aGVsbG8="),
        Ok(ImageData { extension: "png".to_string(), bytes: b"hello".to_vec() })
    );
}
