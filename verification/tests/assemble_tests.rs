use sheetcrop::{cors_headers, disposition_filename, encoding_token, passthrough_headers,
    response_cache_key, CropRect, ImgFormat};

fn b(s: &str) -> Vec<u8> {
    s.as_bytes().to_vec()
}

#[test]
fn response_key_without_crop_is_the_path() {
    let k = response_cache_key(&b("/sheet.png"), &None);
    assert_eq!(k, b("/sheet.png"));
}

#[test]
fn response_key_appends_the_crop_parameters() {
    let crop = Some(CropRect { x: 10, y: 20, w: 5, h: 5 });
    let k = response_cache_key(&b("/sheet.png"), &crop);
    assert_eq!(k, b("/sheet.png?x10&y20&w5&h5"));
}

#[test]
fn response_key_renders_large_numbers_in_decimal() {
    let crop = Some(CropRect { x: 0, y: 1, w: 4294967295, h: 100 });
    let k = response_cache_key(&b("/s"), &crop);
    assert_eq!(k, b("/s?x0&y1&w4294967295&h100"));
}

#[test]
fn filename_replaces_the_extension_with_the_negotiated_one() {
    let f = disposition_filename(&b("/sprites/sheet.png"), ImgFormat::Jpeg);
    assert_eq!(f, b("sheet.jpg"));
}

#[test]
fn filename_without_extension_gains_one() {
    let f = disposition_filename(&b("/sheet"), ImgFormat::WebP);
    assert_eq!(f, b("sheet.webp"));
}

#[test]
fn a_leading_dot_is_part_of_the_name_not_an_extension() {
    let f = disposition_filename(&b("/dir/.png"), ImgFormat::WebP);
    assert_eq!(f, b(".png.webp"));
}

#[test]
fn filename_strips_control_and_non_ascii_bytes() {
    let mut path = b("/she");
    path.push(0x07);
    path.extend_from_slice("\u{00e9}t.png".as_bytes());
    let f = disposition_filename(&path, ImgFormat::Png);
    assert_eq!(f, b("shet.png"));
}

#[test]
fn encoding_token_is_the_first_listed_value() {
    assert_eq!(encoding_token(&b("gzip, br")), b("gzip"));
    assert_eq!(encoding_token(&b("  br ;q=1, gzip")), b("br ;q=1"));
    assert_eq!(encoding_token(&b("deflate")), b("deflate"));
    assert_eq!(encoding_token(&b("")), b(""));
}

#[test]
fn cors_headers_allow_everything_for_a_day() {
    let h = cors_headers();
    assert_eq!(
        h,
        vec![
            ("Access-Control-Allow-Origin", "*"),
            ("Access-Control-Allow-Methods", "*"),
            ("Access-Control-Max-Age", "86400"),
            ("Access-Control-Allow-Headers", "*"),
        ]
    );
}

#[test]
fn passthrough_headers_are_the_caching_ones() {
    assert_eq!(
        passthrough_headers(),
        vec!["last-modified", "etag", "cache-control", "expires", "date"]
    );
}
