use sheetcrop::{accept_pick, format_from_extension, format_from_mime, mime_type, negotiate,
    ImgFormat};

fn b(s: &str) -> Vec<u8> {
    s.as_bytes().to_vec()
}

#[test]
fn explicit_format_wins() {
    let f = negotiate(Some(&b("gif")), Some(&b("image/png")));
    assert_eq!(f, ImgFormat::Gif);
}

#[test]
fn unknown_explicit_falls_back_to_accept() {
    let f = negotiate(Some(&b("tiff")), Some(&b("image/jpeg")));
    assert_eq!(f, ImgFormat::Jpeg);
}

#[test]
fn quality_weights_are_ignored_first_match_wins() {
    let f = negotiate(None, Some(&b("image/webp;q=0.5,image/png;q=0.9")));
    assert_eq!(f, ImgFormat::WebP);
}

#[test]
fn default_is_png() {
    assert_eq!(negotiate(None, None), ImgFormat::Png);
    assert_eq!(negotiate(None, Some(&b("text/html"))), ImgFormat::Png);
    assert_eq!(negotiate(Some(&b("doc")), None), ImgFormat::Png);
}

#[test]
fn accept_skips_unknown_candidates() {
    let f = accept_pick(&b("text/html, application/json , image/gif"));
    assert_eq!(f, Some(ImgFormat::Gif));
}

#[test]
fn accept_candidates_are_trimmed() {
    let f = accept_pick(&b("  image/png ;q=1.0"));
    assert_eq!(f, Some(ImgFormat::Png));
}

#[test]
fn extensions_map_case_insensitively() {
    assert_eq!(format_from_extension(&b("PNG")), Some(ImgFormat::Png));
    assert_eq!(format_from_extension(&b("jpg")), Some(ImgFormat::Jpeg));
    assert_eq!(format_from_extension(&b("jpeg")), Some(ImgFormat::Jpeg));
    assert_eq!(format_from_extension(&b("WebP")), Some(ImgFormat::WebP));
    assert_eq!(format_from_extension(&b("gif")), Some(ImgFormat::Gif));
    assert_eq!(format_from_extension(&b("bmp")), None);
}

#[test]
fn mimes_map_exactly() {
    assert_eq!(format_from_mime(&b("image/png")), Some(ImgFormat::Png));
    assert_eq!(format_from_mime(&b("image/jpeg")), Some(ImgFormat::Jpeg));
    assert_eq!(format_from_mime(&b("image/webp")), Some(ImgFormat::WebP));
    assert_eq!(format_from_mime(&b("image/gif")), Some(ImgFormat::Gif));
    // MIME types are matched exactly; only extensions are case-folded.
    assert_eq!(format_from_mime(&b("IMAGE/GIF")), None);
    assert_eq!(format_from_mime(&b("image/tiff")), None);
}

#[test]
fn mime_types_are_canonical() {
    assert_eq!(mime_type(ImgFormat::Png), "image/png");
    assert_eq!(mime_type(ImgFormat::Jpeg), "image/jpeg");
    assert_eq!(mime_type(ImgFormat::WebP), "image/webp");
    assert_eq!(mime_type(ImgFormat::Gif), "image/gif");
}
