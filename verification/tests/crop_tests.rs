use sheetcrop::{crop_of_params, http_status, output_bitmap, Bitmap, CropRect, Error};

fn bitmap_3x2() -> Bitmap {
    // Pixel (row, col) holds bytes [10*row + col, 1, 2, 3].
    let mut pixels = Vec::new();
    for row in 0..2u8 {
        for col in 0..3u8 {
            pixels.extend_from_slice(&[10 * row + col, 1, 2, 3]);
        }
    }
    Bitmap { width: 3, height: 2, pixels }
}

#[test]
fn crop_params_all_present() {
    let r = crop_of_params(Some(1), Some(2), Some(3), Some(4));
    assert_eq!(r, Some(CropRect { x: 1, y: 2, w: 3, h: 4 }));
}

#[test]
fn partial_crop_params_mean_no_crop() {
    assert_eq!(crop_of_params(Some(1), Some(2), Some(3), None), None);
    assert_eq!(crop_of_params(None, Some(2), Some(3), Some(4)), None);
    assert_eq!(crop_of_params(Some(1), None, Some(3), Some(4)), None);
    assert_eq!(crop_of_params(Some(1), Some(2), None, Some(4)), None);
    assert_eq!(crop_of_params(None, None, None, None), None);
}

#[test]
fn extract_copies_the_rectangle() {
    let src = bitmap_3x2();
    let out = src.extract(&CropRect { x: 1, y: 0, w: 2, h: 2 }).unwrap();
    assert_eq!(out.width, 2);
    assert_eq!(out.height, 2);
    assert_eq!(
        out.pixels,
        vec![1, 1, 2, 3, 2, 1, 2, 3, 11, 1, 2, 3, 12, 1, 2, 3]
    );
}

#[test]
fn extract_single_pixel() {
    let src = bitmap_3x2();
    let out = src.extract(&CropRect { x: 2, y: 1, w: 1, h: 1 }).unwrap();
    assert_eq!((out.width, out.height), (1, 1));
    assert_eq!(out.pixels, vec![12, 1, 2, 3]);
}

#[test]
fn extract_out_of_bounds_fails_with_no_output() {
    let src = bitmap_3x2();
    let err = src.extract(&CropRect { x: 1, y: 0, w: 3, h: 1 }).unwrap_err();
    assert_eq!(err, Error::InvalidCropBounds);
    assert_eq!(http_status(&err), 500);
    let err = src.extract(&CropRect { x: 0, y: 1, w: 1, h: 2 }).unwrap_err();
    assert_eq!(err, Error::InvalidCropBounds);
}

#[test]
fn extract_accepts_rectangle_touching_the_edge() {
    let src = bitmap_3x2();
    let out = src.extract(&CropRect { x: 0, y: 0, w: 3, h: 2 }).unwrap();
    assert_eq!(out.pixels, src.pixels);
}

#[test]
fn no_crop_keeps_source_dimensions() {
    let src = bitmap_3x2();
    let out = output_bitmap(&src, &None).unwrap();
    assert_eq!((out.width, out.height), (src.width, src.height));
    assert_eq!(out.pixels, src.pixels);
}

#[test]
fn valid_crop_yields_requested_dimensions() {
    let src = bitmap_3x2();
    let out = output_bitmap(&src, &Some(CropRect { x: 0, y: 0, w: 2, h: 1 })).unwrap();
    assert_eq!((out.width, out.height), (2, 1));
}

#[test]
fn empty_crop_is_valid_and_empty() {
    let src = bitmap_3x2();
    let out = src.extract(&CropRect { x: 3, y: 2, w: 0, h: 0 }).unwrap();
    assert_eq!((out.width, out.height), (0, 0));
    assert_eq!(out.pixels, Vec::<u8>::new());
}
