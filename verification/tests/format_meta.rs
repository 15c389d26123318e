use imgopt::format_meta::list_compress_options;
use imgopt::format_meta::list_supported_formats;
use imgopt::format_meta::ImageFormat;
use imgopt::format_meta::ImageFormatError;
use imgopt::format_meta::ProcessStrategy;

#[test]
fn from_extension_recognises_all() {
    assert_eq!(ImageFormat::from_extension("jpg"), Some(ImageFormat::Jpeg));
    assert_eq!(ImageFormat::from_extension("jpeg"), Some(ImageFormat::Jpeg));
    assert_eq!(ImageFormat::from_extension("png"), Some(ImageFormat::Png));
    assert_eq!(ImageFormat::from_extension("webp"), Some(ImageFormat::WebP));
}

#[test]
fn from_extension_ignores_ascii_case() {
    assert_eq!(ImageFormat::from_extension("JPG"), Some(ImageFormat::Jpeg));
    assert_eq!(ImageFormat::from_extension("Jpeg"), Some(ImageFormat::Jpeg));
    assert_eq!(ImageFormat::from_extension("PNG"), Some(ImageFormat::Png));
    assert_eq!(ImageFormat::from_extension("WebP"), Some(ImageFormat::WebP));
}

#[test]
fn from_extension_rejects_unknown() {
    assert_eq!(ImageFormat::from_extension("gif"), None);
    assert_eq!(ImageFormat::from_extension(""), None);
    assert_eq!(ImageFormat::from_extension("jpg "), None);
}

#[test]
fn from_path_detects_format() {
    assert_eq!(ImageFormat::from_path("a/b/photo.jpg"), Ok(ImageFormat::Jpeg));
    assert_eq!(ImageFormat::from_path("x.PNG"), Ok(ImageFormat::Png));
    assert_eq!(ImageFormat::from_path("dir/clip.webp"), Ok(ImageFormat::WebP));
}

#[test]
fn from_path_rejects_unknown() {
    assert_eq!(
        ImageFormat::from_path("a/b/document.txt"),
        Err(ImageFormatError::Unsupported)
    );
    assert_eq!(ImageFormat::from_path("noext"), Err(ImageFormatError::Unsupported));
    assert_eq!(ImageFormat::from_path(".hidden"), Err(ImageFormatError::Unsupported));
}

#[test]
fn extensions_str_lists_extensions() {
    assert_eq!(ImageFormat::Png.extensions_str(), vec!["png"]);
    assert_eq!(ImageFormat::Jpeg.extensions_str(), vec!["jpg", "jpeg"]);
    assert_eq!(ImageFormat::WebP.extensions_str(), vec!["webp"]);
}

#[test]
fn representative_ext_is_first_extension() {
    assert_eq!(ImageFormat::Png.get_representative_ext_str(), "png");
    assert_eq!(ImageFormat::Jpeg.get_representative_ext_str(), "jpg");
    assert_eq!(ImageFormat::WebP.get_representative_ext_str(), "webp");
}

#[test]
fn process_strategy_png_is_serial() {
    assert_eq!(ImageFormat::Png.process_strategy(), ProcessStrategy::Serial);
    assert_eq!(ImageFormat::Jpeg.process_strategy(), ProcessStrategy::Parallel);
    assert_eq!(ImageFormat::WebP.process_strategy(), ProcessStrategy::Parallel);
}

#[test]
fn get_formats_lists_all() {
    assert_eq!(
        ImageFormat::get_formats(),
        vec![ImageFormat::Jpeg, ImageFormat::Png, ImageFormat::WebP]
    );
}

#[test]
fn compress_options_context_png() {
    let ctx = ImageFormat::Png.get_compress_options_context();
    assert_eq!(ctx.extension, "png");
    assert_eq!(ctx.min, 0);
    assert_eq!(ctx.max, 60);
    assert_eq!(ctx.default, 60);
    assert_eq!(ctx.step, 10);
}

#[test]
fn compress_options_context_jpeg_webp() {
    let jpeg = ImageFormat::Jpeg.get_compress_options_context();
    assert_eq!(jpeg.extension, "jpg");
    assert_eq!(jpeg.min, 0);
    assert_eq!(jpeg.max, 1000);
    assert_eq!(jpeg.default, 750);
    assert_eq!(jpeg.step, 1);

    let webp = ImageFormat::WebP.get_compress_options_context();
    assert_eq!(webp.extension, "webp");
    assert_eq!(webp.default, 750);
}

#[test]
fn can_compress_png_only_from_png() {
    assert!(ImageFormat::Png.can_compress(&ImageFormat::Png));
    assert!(!ImageFormat::Jpeg.can_compress(&ImageFormat::Png));
    assert!(!ImageFormat::WebP.can_compress(&ImageFormat::Png));
    assert!(ImageFormat::Png.can_compress(&ImageFormat::Jpeg));
    assert!(ImageFormat::Png.can_compress(&ImageFormat::WebP));
    assert!(ImageFormat::Jpeg.can_compress(&ImageFormat::WebP));
}

#[test]
fn writable_formats_match_can_compress() {
    assert_eq!(
        ImageFormat::Png.writable_formats(),
        vec![ImageFormat::Png, ImageFormat::Jpeg, ImageFormat::WebP]
    );
    assert_eq!(
        ImageFormat::Jpeg.writable_formats(),
        vec![ImageFormat::Jpeg, ImageFormat::WebP]
    );
    assert_eq!(
        ImageFormat::WebP.writable_formats(),
        vec![ImageFormat::Jpeg, ImageFormat::WebP]
    );
}

#[test]
fn readable_everywhere() {
    assert!(ImageFormat::Png.readable());
    assert!(ImageFormat::Jpeg.readable());
    assert!(ImageFormat::WebP.readable());
}

#[test]
fn supported_formats_listing() {
    let rows = list_supported_formats();
    assert_eq!(rows.len(), 3);
    assert_eq!(rows[0].extension, "jpg");
    assert_eq!(rows[1].extension, "png");
    assert_eq!(rows[2].extension, "webp");
    for row in &rows {
        assert!(row.readable);
        assert!(row.writable);
    }
}

#[test]
fn compress_options_listing() {
    let rows = list_compress_options();
    assert_eq!(rows.len(), 3);
    assert_eq!(rows[0].extension, "jpg");
    assert_eq!(rows[0].default, 750);
    assert_eq!(rows[1].extension, "png");
    assert_eq!(rows[1].default, 60);
    assert_eq!(rows[2].extension, "webp");
    assert_eq!(rows[2].default, 750);
}
