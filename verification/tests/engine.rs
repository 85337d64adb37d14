use image::DynamicImage;
use thumbnail_processor::engine::{
    decode_input, encode_png, external_outcome, remove_and_encode, remove_background_from_decoded,
    remove_background_with_native, starts_with_png_signature, EngineError,
};

const PNG_SIGNATURE: [u8; 8] = [0x89, b'P', b'N', b'G', b'\r', b'\n', 0x1a, b'\n'];

/// A minimal 2x2 PNG.
fn test_image_bytes() -> Vec<u8> {
    let img = DynamicImage::new_rgb8(2, 2);
    let mut buf = std::io::Cursor::new(Vec::new());
    img.write_to(&mut buf, image::ImageFormat::Png).expect("write test image");
    buf.into_inner()
}

#[test]
fn engine_error_messages() {
    assert_eq!(
        EngineError::EngineUnavailable("/x".to_string()).message(),
        "engine binary not found or not executable: /x"
    );
    assert_eq!(EngineError::NonZeroExit(1).message(), "engine returned non-zero exit code: 1");
    assert_eq!(EngineError::NonZeroExit(-1).message(), "engine returned non-zero exit code: -1");
    assert_eq!(
        EngineError::NonZeroExit(i32::MIN).message(),
        "engine returned non-zero exit code: -2147483648"
    );
    assert_eq!(EngineError::SpawnFailed("nf".to_string()).message(), "failed to spawn engine: nf");
    assert_eq!(EngineError::ModelLoad("m".to_string()).message(), "failed to load native model: m");
    assert_eq!(EngineError::Decode("d".to_string()).message(), "failed to decode input image: d");
    assert_eq!(
        EngineError::Native("n".to_string()).message(),
        "native background removal failed: n"
    );
    assert_eq!(EngineError::Encode("e".to_string()).message(), "failed to encode PNG: e");
}

#[test]
fn external_outcome_passes_output_or_exit_code() {
    let mut png = PNG_SIGNATURE.to_vec();
    png.extend_from_slice(&[1, 2, 3]);
    assert_eq!(external_outcome(true, Some(0), png.clone()), Ok(png));
    assert_eq!(
        external_outcome(true, Some(0), vec![0]),
        Err(EngineError::Encode("the external engine's output is not a PNG image".to_string()))
    );
    assert!(matches!(
        external_outcome(true, Some(0), PNG_SIGNATURE[..7].to_vec()),
        Err(EngineError::Encode(_))
    ));
    assert_eq!(external_outcome(false, Some(3), vec![1]), Err(EngineError::NonZeroExit(3)));
    assert_eq!(external_outcome(false, None, vec![]), Err(EngineError::NonZeroExit(-1)));
}

#[test]
fn decode_rejects_non_images() {
    assert!(matches!(decode_input(b"not an image"), Err(EngineError::Decode(_))));
    assert!(matches!(decode_input(&[0xFF, 0xD8]), Err(EngineError::Decode(_))));
    let img = decode_input(&test_image_bytes()).expect("decodes");
    assert_eq!((img.width(), img.height()), (2, 2));
}

#[test]
fn encode_writes_png() {
    let bytes = encode_png(&DynamicImage::new_rgba8(3, 1)).expect("encodes");
    assert!(bytes.starts_with(&PNG_SIGNATURE));
    let back = image::load_from_memory(&bytes).unwrap();
    assert_eq!((back.width(), back.height()), (3, 1));
}

#[test]
fn encode_rejects_empty_image() {
    assert!(matches!(encode_png(&DynamicImage::new_rgba8(0, 0)), Err(EngineError::Encode(_))));
}

#[test]
fn native_pipeline_runs_the_remover_and_encodes_png() {
    let bytes = test_image_bytes();
    let out = remove_background_with_native(&bytes, |img: &DynamicImage| {
        Ok(DynamicImage::ImageRgba8(img.to_rgba8()))
    })
    .expect("pipeline succeeds");
    assert!(out.starts_with(&PNG_SIGNATURE));
    let back = image::load_from_memory(&out).unwrap();
    assert_eq!((back.width(), back.height()), (2, 2));
    assert!(back.color().has_alpha());
}

#[test]
fn native_pipeline_reports_each_stage() {
    let failing =
        |_: &DynamicImage| Err::<DynamicImage, EngineError>(EngineError::Native("model failed".to_string()));
    assert_eq!(
        remove_background_with_native(&test_image_bytes(), failing),
        Err(EngineError::Native("model failed".to_string()))
    );
    let unused = |img: &DynamicImage| Ok(img.clone());
    assert!(matches!(
        remove_background_with_native(&[0xFF, 0xD8], unused),
        Err(EngineError::Decode(_))
    ));
    // PNG holds no image without pixels
    let empty_image = |_: &DynamicImage| Ok(DynamicImage::new_rgba8(0, 0));
    let r = remove_background_with_native(&test_image_bytes(), empty_image);
    assert!(matches!(r, Err(EngineError::Encode(_))));
}

#[test]
fn png_signature_check() {
    assert!(starts_with_png_signature(&PNG_SIGNATURE));
    assert!(starts_with_png_signature(&test_image_bytes()));
    assert!(!starts_with_png_signature(&PNG_SIGNATURE[..7]));
    assert!(!starts_with_png_signature(b"\x89PNG\r\n\x1a\x0b"));
    assert!(!starts_with_png_signature(&[]));
}

#[test]
fn encode_matches_the_image_crate_png_encoding() {
    let img = DynamicImage::new_rgb8(2, 2);
    assert_eq!(encode_png(&img).unwrap(), test_image_bytes());
}

#[test]
fn remove_and_encode_encodes_the_remover_output() {
    let input = DynamicImage::new_rgb8(2, 2);
    let out = remove_and_encode(&input, |_: &DynamicImage| Ok(DynamicImage::new_rgba8(5, 3)))
        .expect("encodes");
    assert_eq!(out, encode_png(&DynamicImage::new_rgba8(5, 3)).unwrap());
    assert_ne!(out, encode_png(&input).unwrap());
    let err = remove_and_encode(&input, |_: &DynamicImage| {
        Err::<DynamicImage, EngineError>(EngineError::Native("x".to_string()))
    });
    assert_eq!(err, Err(EngineError::Native("x".to_string())));
    let err = remove_and_encode(&input, |_: &DynamicImage| Ok(DynamicImage::new_rgba8(0, 0)));
    assert!(matches!(err, Err(EngineError::Encode(_))));
}

#[test]
fn decode_failure_skips_the_remover() {
    let mut ran = false;
    let r = remove_background_from_decoded(Err(EngineError::Decode("bad".to_string())), |img: &DynamicImage| {
        ran = true;
        Ok(img.clone())
    });
    assert_eq!(r, Err(EngineError::Decode("bad".to_string())));
    assert!(!ran);
    let mut ran = false;
    let r = remove_background_with_native(b"not an image", |img: &DynamicImage| {
        ran = true;
        Ok(img.clone())
    });
    assert!(matches!(r, Err(EngineError::Decode(_))));
    assert!(!ran);
}

#[test]
fn native_pipeline_decodes_the_given_bytes() {
    // the remover sees the image encoded in the input, not some other one
    let img = DynamicImage::new_rgb8(4, 3);
    let mut buf = std::io::Cursor::new(Vec::new());
    img.write_to(&mut buf, image::ImageFormat::Png).unwrap();
    let mut seen = (0, 0);
    let out = remove_background_with_native(&buf.into_inner(), |img: &DynamicImage| {
        seen = (img.width(), img.height());
        Ok(img.clone())
    })
    .unwrap();
    assert_eq!(seen, (4, 3));
    assert_eq!(out, encode_png(&DynamicImage::new_rgb8(4, 3)).unwrap());
}
