use imgopt::compresser::compress_plan;
use imgopt::compresser::CompressError;
use imgopt::compresser::CompressOptions;
use imgopt::format_meta::ImageFormat;

fn options(extension: &str, quality: Option<u32>) -> CompressOptions {
    CompressOptions { quality, extension: extension.to_string() }
}

#[test]
fn plan_same_format_keeps_path_spelling() {
    let plan = compress_plan("shots/Scene.JPG", options("jpg", Some(800))).unwrap();
    assert_eq!(plan.input_format, ImageFormat::Jpeg);
    assert_eq!(plan.output_format, ImageFormat::Jpeg);
    assert_eq!(plan.extension, "JPG");
    assert_eq!(plan.output_path, "shots/Scene.JPG");
    assert_eq!(plan.quality, 800);
}

#[test]
fn plan_cross_format_uses_requested_extension() {
    let plan = compress_plan("shots/scene.jpg", options("webp", None)).unwrap();
    assert_eq!(plan.input_format, ImageFormat::Jpeg);
    assert_eq!(plan.output_format, ImageFormat::WebP);
    assert_eq!(plan.extension, "webp");
    assert_eq!(plan.output_path, "shots/scene.webp");
}

#[test]
fn plan_quality_defaults_per_format() {
    let webp = compress_plan("a/b.jpg", options("webp", None)).unwrap();
    assert_eq!(webp.quality, 750);
    let png = compress_plan("a/b.png", options("png", None)).unwrap();
    assert_eq!(png.quality, 60);
    let jpeg = compress_plan("a/b.jpeg", options("jpg", None)).unwrap();
    assert_eq!(jpeg.quality, 750);
}

#[test]
fn plan_explicit_quality_wins() {
    let plan = compress_plan("a/b.png", options("png", Some(20))).unwrap();
    assert_eq!(plan.quality, 20);
}

#[test]
fn plan_unknown_input_format_fails() {
    let r = compress_plan("a/b.txt", options("webp", None));
    assert_eq!(r.unwrap_err(), CompressError::FormatDetectionFailed);
}

#[test]
fn plan_unknown_target_format_fails() {
    let r = compress_plan("a/b.jpg", options("gif", None));
    assert_eq!(r.unwrap_err(), CompressError::FormatDetectionFailed);
}

#[test]
fn plan_missing_extension_fails() {
    let r = compress_plan("a/noext", options("webp", None));
    assert_eq!(r.unwrap_err(), CompressError::FormatDetectionFailed);
}

#[test]
fn plan_png_from_jpeg_is_unsupported() {
    let r = compress_plan("a/b.jpg", options("png", None));
    assert_eq!(
        r.unwrap_err(),
        CompressError::UnsupportedConversion(ImageFormat::Jpeg, ImageFormat::Png)
    );
}

#[test]
fn plan_png_from_webp_is_unsupported() {
    let r = compress_plan("a/b.webp", options("PNG", None));
    assert_eq!(
        r.unwrap_err(),
        CompressError::UnsupportedConversion(ImageFormat::WebP, ImageFormat::Png)
    );
}

#[test]
fn plan_png_to_png_is_supported() {
    let plan = compress_plan("a/b.png", options("png", None)).unwrap();
    assert_eq!(plan.output_path, "a/b.png");
}
