use image::GenericImageView;
use thumbor_core::codec::{decode, encode};
use thumbor_core::engine::{Engine, EngineError, OutputFormat};
use thumbor_core::pb::{Filter, ImageSpec, Resize, ResizeType, SampleFilter, Spec, SpecData};
use thumbor_core::photon::Photon;

fn gradient_pixels(width: u32, height: u32) -> Vec<u8> {
    let mut raw = Vec::with_capacity((4 * width * height) as usize);
    for y in 0..height {
        for x in 0..width {
            raw.push((x * 7 % 256) as u8);
            raw.push((y * 13 % 256) as u8);
            raw.push(((x + y) * 3 % 256) as u8);
            raw.push(255);
        }
    }
    raw
}

#[test]
fn unspecified_filter_and_unknown_step_are_noops() {
    let raw = gradient_pixels(4, 4);
    let mut engine = Photon::from_raw_pixels(raw.clone(), 4, 4);
    engine
        .apply(&[Spec::new_filter(Filter::Unspecified), Spec { data: None }])
        .unwrap();
    assert_eq!(engine.raw_pixels(), raw);
    assert_eq!(engine.width(), 4);
    assert_eq!(engine.height(), 4);
}

#[test]
fn marine_filter_recolours_in_place() {
    let raw = vec![255u8; 2 * 2 * 4];
    let mut engine = Photon::from_raw_pixels(raw.clone(), 2, 2);
    engine.apply(&[Spec::new_filter(Filter::Marine)]).unwrap();
    let after = engine.raw_pixels();
    assert_eq!(after.len(), raw.len());
    assert_ne!(after, raw);
    assert_eq!(engine.width(), 2);
    assert_eq!(engine.height(), 2);
}

#[test]
fn normal_resize_reaches_exact_target() {
    let raw = gradient_pixels(4, 4);
    let mut engine = Photon::from_raw_pixels(raw, 4, 4);
    engine
        .apply(&[Spec::new_resize(2, 2, SampleFilter::Nearest)])
        .unwrap();
    assert_eq!(engine.width(), 2);
    assert_eq!(engine.height(), 2);
    assert_eq!(engine.raw_pixels().len(), 2 * 2 * 4);
}

#[test]
fn seam_carve_ignores_injected_filter() {
    let with_undefined = Spec::new_resize_seam_carve(6, 5);
    let with_injected = Spec {
        data: Some(SpecData::Resize(Resize {
            width: 6,
            height: 5,
            rtype: ResizeType::SeamCarve,
            filter: SampleFilter::Lanczos3,
        })),
    };
    let raw = gradient_pixels(8, 8);

    let mut one = Photon::from_raw_pixels(raw.clone(), 8, 8);
    one.apply(&[with_undefined]).unwrap();
    let mut two = Photon::from_raw_pixels(raw, 8, 8);
    two.apply(&[with_injected]).unwrap();

    assert_eq!(one.width(), 6);
    assert_eq!(one.height(), 5);
    assert_eq!(two.width(), 6);
    assert_eq!(two.height(), 5);
    assert_eq!(one.raw_pixels(), two.raw_pixels());
}

#[test]
fn operation_order_decides_final_dimensions() {
    let bigger = Spec::new_resize(8, 8, SampleFilter::Triangle);
    let smaller = Spec::new_resize(4, 4, SampleFilter::Triangle);
    let raw = gradient_pixels(16, 16);

    let mut one = Photon::from_raw_pixels(raw.clone(), 16, 16);
    one.apply(&[bigger.clone(), smaller.clone()]).unwrap();
    assert_eq!((one.width(), one.height()), (4, 4));

    let mut two = Photon::from_raw_pixels(raw, 16, 16);
    two.apply(&[smaller, bigger]).unwrap();
    assert_eq!((two.width(), two.height()), (8, 8));
}

#[test]
fn out_of_range_dimensions_stop_the_run() {
    let raw = gradient_pixels(4, 4);
    let mut engine = Photon::from_raw_pixels(raw.clone(), 4, 4);
    let result = engine.apply(&[
        Spec::new_resize(0, 10, SampleFilter::Undefined),
        Spec::new_filter(Filter::Marine),
    ]);
    assert_eq!(result, Err(EngineError::OutOfRangeDimensions));
    assert_eq!(engine.raw_pixels(), raw);

    let mut engine = Photon::from_raw_pixels(gradient_pixels(4, 4), 4, 4);
    let result = engine.apply(&[Spec::new_resize(65536, 10, SampleFilter::Undefined)]);
    assert_eq!(result, Err(EngineError::OutOfRangeDimensions));
}

#[test]
fn unreadable_source_bytes_are_reported() {
    let result = Photon::try_from_bytes(b"definitely not an image");
    assert!(matches!(result, Err(EngineError::UnsupportedSourceFormat)));
}

#[test]
fn png_generation_round_trips_the_buffer() {
    let raw = gradient_pixels(3, 2);
    let engine = Photon::from_raw_pixels(raw.clone(), 3, 2);
    let png = engine.generate(&OutputFormat::Png);

    let reloaded = Photon::try_from_bytes(&png).unwrap();
    assert_eq!(reloaded.width(), 3);
    assert_eq!(reloaded.height(), 2);
    assert_eq!(reloaded.raw_pixels(), raw);
}

#[test]
fn end_to_end_token_to_jpeg() {
    let image_spec = ImageSpec::new(vec![
        Spec::new_resize(600, 600, SampleFilter::CatmullRom),
        Spec::new_filter(Filter::Marine),
    ]);
    let token = encode(&image_spec);
    let decoded = decode(token.as_str()).unwrap();
    assert_eq!(decoded, image_spec);

    let mut engine = Photon::from_raw_pixels(gradient_pixels(1200, 800), 1200, 800);
    engine.apply(&decoded.specs).unwrap();
    let jpeg = engine.generate(&OutputFormat::Jpeg(80));

    let out = image::load_from_memory(&jpeg).unwrap();
    assert_eq!(out.dimensions(), (600, 600));
}
