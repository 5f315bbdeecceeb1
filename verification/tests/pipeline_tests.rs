use sheetcrop::{decode_image, http_status, negotiate, transform, transform_bitmap, BitmapCache,
    CropRect, Error, Flight, ImgFormat};

fn png_sheet(width: u32, height: u32) -> Vec<u8> {
    let img = image::RgbaImage::from_fn(width, height, |x, y| {
        image::Rgba([(x % 256) as u8, (y % 256) as u8, 7, 255])
    });
    let mut out = std::io::Cursor::new(Vec::new());
    image::DynamicImage::ImageRgba8(img)
        .write_to(&mut out, image::ImageFormat::Png)
        .unwrap();
    out.into_inner()
}

#[test]
fn crop_of_a_png_sheet_returns_the_requested_size() {
    let src = png_sheet(100, 100);
    let crop = Some(CropRect { x: 10, y: 20, w: 5, h: 5 });
    let out = transform(&src, &crop, ImgFormat::Png).unwrap();
    let decoded = image::load_from_memory(&out).unwrap();
    assert_eq!((decoded.width(), decoded.height()), (5, 5));
    let guessed = image::guess_format(&out).unwrap();
    assert_eq!(guessed, image::ImageFormat::Png);
}

#[test]
fn oversized_crop_is_a_crop_bounds_error() {
    let src = png_sheet(100, 100);
    let crop = Some(CropRect { x: 10, y: 20, w: 200, h: 5 });
    let err = transform(&src, &crop, ImgFormat::Png).unwrap_err();
    assert_eq!(err, Error::InvalidCropBounds);
    assert_eq!(http_status(&err), 500);
}

#[test]
fn no_crop_keeps_the_source_dimensions() {
    let src = png_sheet(33, 17);
    let out = transform(&src, &None, ImgFormat::Png).unwrap();
    let decoded = image::load_from_memory(&out).unwrap();
    assert_eq!((decoded.width(), decoded.height()), (33, 17));
}

#[test]
fn transform_is_deterministic() {
    let src = png_sheet(40, 40);
    let crop = Some(CropRect { x: 1, y: 2, w: 10, h: 9 });
    let a = transform(&src, &crop, ImgFormat::Png).unwrap();
    let b = transform(&src, &crop, ImgFormat::Png).unwrap();
    assert_eq!(a, b);
}

#[test]
fn negotiated_webp_yields_webp_output() {
    let accept = b"image/webp;q=0.5,image/png;q=0.9".to_vec();
    let fmt = negotiate(None, Some(&accept));
    assert_eq!(fmt, ImgFormat::WebP);
    let src = png_sheet(16, 16);
    let out = transform(&src, &None, fmt).unwrap();
    assert_ne!(out, src);
    let guessed = image::guess_format(&out).unwrap();
    assert_eq!(guessed, image::ImageFormat::WebP);
}

#[test]
fn cropped_pixels_survive_the_round_trip() {
    let src = png_sheet(100, 100);
    let crop = Some(CropRect { x: 30, y: 40, w: 2, h: 1 });
    let out = transform(&src, &crop, ImgFormat::Png).unwrap();
    let decoded = image::load_from_memory(&out).unwrap().to_rgba8();
    assert_eq!(decoded.get_pixel(0, 0), &image::Rgba([30, 40, 7, 255]));
    assert_eq!(decoded.get_pixel(1, 0), &image::Rgba([31, 40, 7, 255]));
}

#[test]
fn waiters_are_served_from_the_shared_bitmap_without_refetching() {
    // The producer decodes the upstream bytes once; every later request for
    // the same source is answered from the cached bitmap, and encoding from
    // it gives the same bytes as the full raw-bytes pipeline.
    let src = png_sheet(100, 100);
    let crop = Some(CropRect { x: 10, y: 20, w: 5, h: 5 });
    let key = b"/sheet.png".to_vec();
    let mut cache = BitmapCache::new(4);

    assert!(matches!(cache.lookup(&key), Flight::Producer));
    let decoded = decode_image(&src).unwrap();
    cache.complete_ok(&key, decoded);

    let from_cache = match cache.lookup(&key) {
        Flight::Ready(b) => transform_bitmap(&b, &crop, ImgFormat::Png).unwrap(),
        _ => panic!("expected the cached bitmap"),
    };
    let from_bytes = transform(&src, &crop, ImgFormat::Png).unwrap();
    assert_eq!(from_cache, from_bytes);
    let out = image::load_from_memory(&from_cache).unwrap();
    assert_eq!((out.width(), out.height()), (5, 5));
}

#[test]
fn transform_bitmap_checks_crop_bounds() {
    let src = png_sheet(8, 8);
    let decoded = decode_image(&src).unwrap();
    let err = transform_bitmap(&decoded, &Some(CropRect { x: 0, y: 0, w: 9, h: 1 }), ImgFormat::Png)
        .unwrap_err();
    assert_eq!(err, Error::InvalidCropBounds);
}

#[test]
fn decode_image_rejects_garbage_and_accepts_png() {
    assert_eq!(decode_image(&vec![1, 2, 3, 4]).unwrap_err(), Error::DecodeError);
    let decoded = decode_image(&png_sheet(12, 7)).unwrap();
    assert_eq!((decoded.width, decoded.height), (12, 7));
    assert_eq!(decoded.pixels.len(), 4 * 12 * 7);
}

#[test]
fn garbage_bytes_are_a_decode_error() {
    let src = vec![9, 9, 9, 9, 9, 9, 9, 9];
    let err = transform(&src, &None, ImgFormat::Png).unwrap_err();
    assert_eq!(err, Error::DecodeError);
    assert_eq!(http_status(&err), 500);
}
