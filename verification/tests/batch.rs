use thumbnail_processor::batch::{
    build_output_path, is_supported_image, select_images, BatchError, EngineConfig,
    EngineConfigKind,
};
use thumbnail_processor::cli::Cli;
use thumbnail_processor::path::{extension, file_stem};

#[test]
fn is_supported_image_accepts_jpg() {
    assert!(is_supported_image("test.jpg"));
}

#[test]
fn is_supported_image_accepts_png() {
    assert!(is_supported_image("test.PNG"));
}

#[test]
fn is_supported_image_rejects_txt() {
    assert!(!is_supported_image("readme.txt"));
}

#[test]
fn is_supported_image_rejects_no_extension() {
    assert!(!is_supported_image("Makefile"));
}

#[test]
fn build_output_path_converts_to_png() {
    let out = "/out";
    let path = build_output_path("/in/photo.jpg", out).unwrap();
    assert_eq!(path, "/out/photo.png");
}

#[test]
fn supported_extensions_in_any_case() {
    assert!(is_supported_image("/in/a.jpeg"));
    assert!(is_supported_image("/in/a.JPEG"));
    assert!(is_supported_image("/in/a.WebP"));
    assert!(is_supported_image("/in/a.webp"));
    assert!(is_supported_image("a.Jpg"));
}

#[test]
fn image_test_ignores_extension_case() {
    for (p, q) in [("x.jpeg", "x.JpEg"), ("a/b.PNG", "a/b.png"), ("c.TXT", "c.txt"), ("d.WEBP", "d.wEbP")] {
        assert_eq!(is_supported_image(p), is_supported_image(q));
    }
}

#[test]
fn unsupported_names_are_rejected() {
    assert!(!is_supported_image("a.gif"));
    assert!(!is_supported_image("a.jpgx"));
    assert!(!is_supported_image(".png"));
    assert!(!is_supported_image("a."));
    assert!(!is_supported_image("/"));
    assert!(!is_supported_image("dir.png/.."));
    assert!(!is_supported_image(""));
}

#[test]
fn supported_image_through_trailing_separator() {
    assert!(is_supported_image("/in/photo.png/"));
    assert!(is_supported_image("/in/photo.png/."));
}

#[test]
fn output_path_keeps_stem_and_uses_png() {
    assert_eq!(build_output_path("/in/photo.tar.gz", "/out").unwrap(), "/out/photo.tar.png");
    assert_eq!(build_output_path("/in/photo.jpg", "/out/").unwrap(), "/out/photo.png");
    assert_eq!(build_output_path("photo.jpg", "").unwrap(), "photo.png");
    assert_eq!(build_output_path("/in/.hidden", "out").unwrap(), "out/.hidden.png");
    assert_eq!(build_output_path("/in/Makefile", "out").unwrap(), "out/Makefile.png");
}

#[test]
fn output_path_law_on_examples() {
    for input in ["/in/photo.jpg", "/in/a.b.WEBP", "x", "/in/.hidden", "a/b/c.png/"] {
        let out = build_output_path(input, "/out").unwrap();
        assert!(out.starts_with("/out"));
        assert_eq!(file_stem(&out), file_stem(input));
        assert_eq!(extension(&out), Some("png"));
        assert!(is_supported_image(&out));
    }
}

#[test]
fn output_path_without_stem_is_an_error() {
    let err = build_output_path("/", "/out").unwrap_err();
    assert_eq!(err, BatchError::NoFileStem("/".to_string()));
    assert_eq!(err.message(), "cannot extract file stem from /");
    assert!(build_output_path("a/..", "/out").is_err());
    assert!(build_output_path(".", "/out").is_err());
}

#[test]
fn select_images_keeps_supported_in_order() {
    let listing: Vec<String> = ["in/b.png", "in/c.txt", "in/a.jpg", "in/notes", "in/d.WEBP"]
        .iter()
        .map(|s| s.to_string())
        .collect();
    let chosen = select_images(&listing);
    assert_eq!(chosen, vec!["in/b.png".to_string(), "in/a.jpg".to_string(), "in/d.WEBP".to_string()]);
    assert!(select_images(&vec!["x.txt".to_string()]).is_empty());
}

#[test]
fn engine_config_names_its_engine() {
    let e = EngineConfig::external("rembg".to_string());
    assert_eq!(e.kind(), &EngineConfigKind::External("rembg".to_string()));
    let n = EngineConfig::native("model.onnx".to_string());
    assert_eq!(n.kind(), &EngineConfigKind::Native("model.onnx".to_string()));
}

#[test]
fn cli_chooses_engine() {
    let cli = Cli {
        input_dir: "in".to_string(),
        output_dir: "out".to_string(),
        workers: 4,
        engine: "native".to_string(),
        model: "model.onnx".to_string(),
    };
    assert_eq!(cli.engine_config().kind(), &EngineConfigKind::Native("model.onnx".to_string()));
    let cli = Cli {
        input_dir: "in".to_string(),
        output_dir: "out".to_string(),
        workers: 4,
        engine: "/usr/bin/rembg".to_string(),
        model: "model.onnx".to_string(),
    };
    assert_eq!(
        cli.engine_config().kind(),
        &EngineConfigKind::External("/usr/bin/rembg".to_string())
    );
}
