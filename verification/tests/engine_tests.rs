use thumbor::codec::{decode, encode, png_round_trip, EncodeError, OutputFormat};
use thumbor::engine::Photon;
use thumbor::ops::{FilterKind, Operation, ResizeStrategy, SamplingFilter};
use thumbor::raster::Raster;

fn raster_from(width: u32, height: u32, pixels: Vec<u8>) -> Raster {
    assert_eq!(pixels.len(), (width * height * 4) as usize);
    Raster {
        width,
        height,
        pixels,
    }
}

#[test]
fn apply_empty_is_identity() {
    let mut engine = Photon(Raster::filled(9, 7, 12, 34, 56, 78));
    let before = engine.0.pixels.clone();
    engine.apply(&[]);
    assert_eq!(engine.0.width, 9);
    assert_eq!(engine.0.height, 7);
    assert_eq!(engine.0.pixels, before);
}

#[test]
fn flip_h_twice_restores() {
    let pixels: Vec<u8> = (0..8 * 3 * 4).map(|i| (i * 7 % 256) as u8).collect();
    let mut engine = Photon(raster_from(8, 3, pixels.clone()));
    engine.apply(&[Operation::FlipHorizontal, Operation::FlipHorizontal]);
    assert_eq!(engine.0.pixels, pixels);
}

#[test]
fn flip_v_twice_restores() {
    let pixels: Vec<u8> = (0..5 * 4 * 4).map(|i| (i * 11 % 256) as u8).collect();
    let mut engine = Photon(raster_from(5, 4, pixels.clone()));
    engine.apply(&[Operation::FlipVertical, Operation::FlipVertical]);
    assert_eq!(engine.0.pixels, pixels);
}

#[test]
fn flip_and_crop_order_matters() {
    // A 2 x 1 image with two distinct pixels; cropping the left pixel is not
    // symmetric about the vertical midline.
    let pixels = vec![10, 20, 30, 255, 40, 50, 60, 255];
    let crop = Operation::Crop {
        x0: 0,
        y0: 0,
        x1: 1,
        y1: 1,
    };

    let mut flipped_first = Photon(raster_from(2, 1, pixels.clone()));
    flipped_first.apply(&[Operation::FlipHorizontal, crop]);
    assert_eq!(flipped_first.0.pixels, vec![40, 50, 60, 255]);

    let mut cropped_first = Photon(raster_from(2, 1, pixels));
    cropped_first.apply(&[crop, Operation::FlipHorizontal]);
    assert_eq!(cropped_first.0.pixels, vec![10, 20, 30, 255]);

    assert_ne!(flipped_first.0.pixels, cropped_first.0.pixels);
}

#[test]
fn watermark_fully_outside_is_noop() {
    let mut engine = Photon(Raster::filled(8, 8, 1, 2, 3, 4));
    let before = engine.0.pixels.clone();
    engine.apply(&[Operation::Watermark { x: 8 + 100, y: 0 }]);
    assert_eq!(engine.0.pixels, before);
    engine.apply(&[Operation::Watermark { x: 0, y: 8 + 100 }]);
    assert_eq!(engine.0.pixels, before);
}

#[test]
fn watermark_blends_inside() {
    let mut engine = Photon(Raster::filled(70, 70, 255, 0, 0, 255));
    engine.apply(&[Operation::Watermark { x: 0, y: 0 }]);
    // At (0, 0) the asset stripe is on: white at alpha 160 over opaque red.
    let p0 = &engine.0.pixels[0..4];
    assert_eq!(p0, &[255, 160, 160, 255]);
    // At (4, 0) the stripe is off (alpha 0): the red pixel is untouched.
    let p4 = &engine.0.pixels[16..20];
    assert_eq!(p4, &[255, 0, 0, 255]);
}

#[test]
fn resize_normal_yields_exact_dimensions() {
    let mut engine = Photon(Raster::filled(7, 5, 9, 8, 7, 255));
    engine.apply(&[Operation::Resize {
        width: 3,
        height: 2,
        strategy: ResizeStrategy::Normal(SamplingFilter::Nearest),
    }]);
    assert_eq!(engine.0.width, 3);
    assert_eq!(engine.0.height, 2);
    assert_eq!(engine.0.pixels.len(), 3 * 2 * 4);
    assert!(engine.0.pixels.chunks(4).all(|p| p == [9, 8, 7, 255]));
}

#[test]
fn resize_nearest_duplicates_source_pixels() {
    let pixels = vec![10, 11, 12, 13, 20, 21, 22, 23];
    let mut r = raster_from(2, 1, pixels);
    thumbor::resize::resize_normal(&mut r, 4, 1, SamplingFilter::Nearest);
    assert_eq!(
        r.pixels,
        vec![10, 11, 12, 13, 10, 11, 12, 13, 20, 21, 22, 23, 20, 21, 22, 23]
    );
}

#[test]
fn resize_bilinear_interpolates_midpoint() {
    // Upscaling two pixels to three places the middle target pixel halfway
    // between the two sources: the exact average.
    let pixels = vec![10, 11, 12, 13, 20, 21, 22, 23];
    let mut r = raster_from(2, 1, pixels);
    thumbor::resize::resize_normal(&mut r, 3, 1, SamplingFilter::Triangle);
    assert_eq!(
        r.pixels,
        vec![10, 11, 12, 13, 15, 16, 17, 18, 20, 21, 22, 23]
    );
}

#[test]
fn seam_carve_yields_exact_dimensions() {
    let mut shrink = Photon(Raster::filled(5, 4, 50, 60, 70, 255));
    shrink.apply(&[Operation::Resize {
        width: 3,
        height: 2,
        strategy: ResizeStrategy::SeamCarve,
    }]);
    assert_eq!(shrink.0.width, 3);
    assert_eq!(shrink.0.height, 2);
    assert!(shrink.0.pixels.chunks(4).all(|p| p == [50, 60, 70, 255]));

    let mut grow = Photon(Raster::filled(5, 4, 50, 60, 70, 255));
    grow.apply(&[Operation::Resize {
        width: 7,
        height: 6,
        strategy: ResizeStrategy::SeamCarve,
    }]);
    assert_eq!(grow.0.width, 7);
    assert_eq!(grow.0.height, 6);
    assert!(grow.0.pixels.chunks(4).all(|p| p == [50, 60, 70, 255]));
}

#[test]
fn contrast_saturates_at_extremes() {
    let pixels = vec![200, 50, 128, 255];
    let mut bright = Photon(raster_from(1, 1, pixels.clone()));
    bright.apply(&[Operation::Contrast { amount: 1000 }]);
    assert_eq!(bright.0.pixels, vec![255, 0, 128, 255]);

    let mut flat = Photon(raster_from(1, 1, pixels));
    flat.apply(&[Operation::Contrast { amount: -1000 }]);
    assert_eq!(flat.0.pixels, vec![128, 128, 128, 255]);
}

#[test]
fn contrast_zero_is_identity() {
    let pixels = vec![0, 50, 128, 255, 200, 100, 1, 7];
    let mut engine = Photon(raster_from(2, 1, pixels.clone()));
    engine.apply(&[Operation::Contrast { amount: 0 }]);
    assert_eq!(engine.0.pixels, pixels);
}

#[test]
fn filter_oceanic_boosts_green_and_blue() {
    let mut engine = Photon(raster_from(1, 1, vec![100, 100, 100, 200]));
    engine.apply(&[Operation::Filter {
        kind: FilterKind::Oceanic,
    }]);
    assert_eq!(engine.0.pixels, vec![100, 109, 255, 200]);
}

#[test]
fn filter_vintage_boosts_all_colors() {
    let mut engine = Photon(raster_from(1, 1, vec![100, 100, 100, 200]));
    engine.apply(&[Operation::Filter {
        kind: FilterKind::Vintage,
    }]);
    assert_eq!(engine.0.pixels, vec![220, 170, 113, 200]);
}

#[test]
fn crop_clamps_out_of_bounds() {
    let mut engine = Photon(Raster::filled(4, 4, 1, 1, 1, 255));
    engine.apply(&[Operation::Crop {
        x0: 2,
        y0: 2,
        x1: 100,
        y1: 100,
    }]);
    assert_eq!(engine.0.width, 2);
    assert_eq!(engine.0.height, 2);
}

#[test]
fn unknown_operation_is_skipped() {
    let mut engine = Photon(Raster::filled(3, 3, 4, 5, 6, 7));
    let before = engine.0.pixels.clone();
    engine.apply(&[Operation::Unknown]);
    assert_eq!(engine.0.pixels, before);
}

#[test]
fn png_round_trip_reproduces_raster() {
    let pixels: Vec<u8> = (0..3 * 2 * 4).map(|i| (i * 13 % 256) as u8).collect();
    let r = raster_from(3, 2, pixels.clone());
    let back = png_round_trip(&r);
    assert_eq!(back.width, 3);
    assert_eq!(back.height, 2);
    assert_eq!(back.pixels, pixels);
}

#[test]
fn png_encode_emits_real_stream() {
    let r = Raster::filled(2, 2, 9, 9, 9, 255);
    let bytes = encode(&r, OutputFormat::Png).unwrap();
    assert_eq!(&bytes[0..4], &[137, 80, 78, 71]);
}

#[test]
fn jpeg_encode_emits_real_stream() {
    let r = Raster::filled(8, 8, 200, 10, 10, 255);
    let bytes = encode(&r, OutputFormat::Jpeg).unwrap();
    assert_eq!(&bytes[0..2], &[0xFF, 0xD8]);
}

#[test]
fn jpeg_encode_succeeds_at_format_bound() {
    let r = Raster::filled(65535, 1, 10, 20, 30, 255);
    assert!(encode(&r, OutputFormat::Jpeg).is_ok());
}

#[test]
fn jpeg_round_trip_keeps_dimensions() {
    let source = Raster::filled(9, 5, 120, 60, 30, 255);
    let bytes = encode(&source, OutputFormat::Jpeg).unwrap();
    let back = decode(&bytes).unwrap();
    assert_eq!(back.width, 9);
    assert_eq!(back.height, 5);
}

#[test]
fn jpeg_rejects_oversized_dimensions() {
    let r = Raster::filled(70000, 1, 0, 0, 0, 255);
    assert!(matches!(
        encode(&r, OutputFormat::Jpeg),
        Err(EncodeError::Codec(_))
    ));
}

#[test]
fn encode_rejects_degenerate_raster() {
    let r = raster_from(0, 0, Vec::new());
    assert!(matches!(
        encode(&r, OutputFormat::Png),
        Err(EncodeError::Degenerate)
    ));
    let cropped_away = raster_from(3, 0, Vec::new());
    assert!(matches!(
        encode(&cropped_away, OutputFormat::Jpeg),
        Err(EncodeError::Degenerate)
    ));
}

#[test]
fn decode_rejects_garbage() {
    let out = decode(b"this is not an encoded image");
    assert!(out.is_err());
}

#[test]
fn crop_then_flip_scenario() {
    // A 100 x 100 opaque red raster, cropped to [10, 60) x [10, 60) and
    // flipped vertically, is a 50 x 50 opaque red raster; the generated PNG
    // decodes back to the same.
    let mut engine = Photon(Raster::filled(100, 100, 255, 0, 0, 255));
    engine.apply(&[
        Operation::Crop {
            x0: 10,
            y0: 10,
            x1: 60,
            y1: 60,
        },
        Operation::FlipVertical,
    ]);
    assert_eq!(engine.0.width, 50);
    assert_eq!(engine.0.height, 50);
    assert!(engine.0.pixels.chunks(4).all(|p| p == [255, 0, 0, 255]));

    let bytes = engine.generate(OutputFormat::Png).unwrap();
    let back = decode(&bytes).unwrap();
    assert_eq!(back.width, 50);
    assert_eq!(back.height, 50);
    assert!(back.pixels.chunks(4).all(|p| p == [255, 0, 0, 255]));
}

#[test]
fn engine_from_bytes_round_trip() {
    let source = Raster::filled(6, 4, 30, 40, 50, 255);
    let bytes = encode(&source, OutputFormat::Png).unwrap();
    let mut engine = Photon::from_bytes(&bytes).unwrap();
    engine.apply(&[]);
    let out = engine.generate(OutputFormat::Png).unwrap();
    let back = decode(&out).unwrap();
    assert_eq!(back.width, 6);
    assert_eq!(back.height, 4);
    assert_eq!(back.pixels, source.pixels);
}

#[test]
fn from_bytes_rejects_garbage() {
    assert!(Photon::from_bytes(b"not an image").is_err());
}

#[test]
fn watermark_asset_is_fixed_size() {
    let wm = thumbor::watermark::watermark_asset();
    assert_eq!(wm.width, 64);
    assert_eq!(wm.height, 64);
    assert_eq!(wm.pixels.len(), 64 * 64 * 4);
}
