//! Codec glue: decoding raw bytes into a bitmap and encoding a bitmap into
//! the negotiated format, through the `image` crate, plus the verified
//! decode-crop-encode pipeline built on them.
//!
//! Decoding and encoding are functions of their arguments alone; their
//! results are named by `decoded_of` and `encoded_of`, and every contract of
//! the pipeline speaks through those names.

use std::io::Cursor;
use vstd::prelude::*;
use crate::bitmap::{spec_output, Bitmap, BitmapModel};
use crate::crop::CropRect;
use crate::errors::Error;
use crate::negotiate::ImgFormat;

verus! {

/// What decoding a byte string yields: the bitmap model on success, nothing
/// when the bytes are not a recognizable, well-formed image.
pub uninterp spec fn decoded_of(bytes: Seq<u8>) -> Option<BitmapModel>;

/// What encoding a bitmap model into a format yields: the encoded bytes, or
/// nothing on a codec failure.
pub uninterp spec fn encoded_of(m: BitmapModel, fmt: ImgFormat) -> Option<Seq<u8>>;

/// Relies on image's `ImageReader` (with `with_guessed_format`, so the format
/// is sniffed from the content, never from a client hint), `decode`, and
/// `DynamicImage::to_rgba8`: decoding is a function of the input bytes alone,
/// and the RGBA8 buffer holds exactly 4 bytes per pixel. "Of the bytes alone"
/// assumes the process has not registered custom decoding hooks with the
/// image crate (its hook registries are consulted before the built-in
/// signatures); nothing in this library or its driver registers any.
#[verifier::external_body]
fn decode_via_image(bytes: &Vec<u8>) -> (r: Result<Bitmap, Error>)
    ensures
        match r {
            Ok(b) => decoded_of(bytes@) == Some(b.model()) && b.wf(),
            Err(e) => decoded_of(bytes@) is None && e == Error::DecodeError,
        },
{
    let reader = match image::ImageReader::new(Cursor::new(bytes.as_slice())).with_guessed_format()
    {
        Ok(r) => r,
        Err(_) => return Err(Error::DecodeError),
    };
    let img = match reader.decode() {
        Ok(i) => i,
        Err(_) => return Err(Error::DecodeError),
    };
    let rgba = img.to_rgba8();
    let (width, height) = (rgba.width(), rgba.height());
    Ok(Bitmap { width, height, pixels: rgba.into_raw() })
}

/// Decode fetched source bytes into a bitmap. Succeeds exactly when the bytes
/// are a recognizable, well-formed image (`decoded_of` is their name); the
/// decoded bitmap is well formed, as the single-flight cache requires of a
/// completed entry.
pub fn decode_image(bytes: &Vec<u8>) -> (r: Result<Bitmap, Error>)
    ensures
        match r {
            Ok(b) => decoded_of(bytes@) == Some(b.model()) && b.wf(),
            Err(e) => decoded_of(bytes@) is None && e == Error::DecodeError,
        },
{
    decode_via_image(bytes)
}

/// Relies on image's `RgbaImage::from_raw` (succeeds exactly when the buffer
/// length matches the dimensions, which `b.wf()` guarantees) and
/// `DynamicImage::write_to`: encoding a given RGBA buffer into a given format
/// is deterministic in those inputs.
#[verifier::external_body]
fn encode_bitmap(b: &Bitmap, fmt: ImgFormat) -> (r: Result<Vec<u8>, Error>)
    requires
        b.wf(),
    ensures
        match r {
            Ok(v) => encoded_of(b.model(), fmt) == Some(v@),
            Err(e) => encoded_of(b.model(), fmt) is None && e == Error::EncodeError,
        },
{
    let image_fmt = match fmt {
        ImgFormat::Png => image::ImageFormat::Png,
        ImgFormat::Jpeg => image::ImageFormat::Jpeg,
        ImgFormat::WebP => image::ImageFormat::WebP,
        ImgFormat::Gif => image::ImageFormat::Gif,
    };
    let buf = match image::RgbaImage::from_raw(b.width, b.height, b.pixels.clone()) {
        Some(i) => i,
        None => return Err(Error::EncodeError),
    };
    let mut out = Cursor::new(Vec::new());
    match image::DynamicImage::ImageRgba8(buf).write_to(&mut out, image_fmt) {
        Ok(()) => Ok(out.into_inner()),
        Err(_) => Err(Error::EncodeError),
    }
}

/// The whole transformation as a function of the raw upstream bytes, the crop
/// request and the negotiated format: decode, take the output bitmap (the
/// source itself or the valid crop of it), encode.
pub open spec fn spec_transform(bytes: Seq<u8>, crop: Option<CropRect>, fmt: ImgFormat) -> Result<
    Seq<u8>,
    Error,
> {
    match decoded_of(bytes) {
        None => Err(Error::DecodeError),
        Some(m) => match spec_output(m, crop) {
            Err(e) => Err(e),
            Ok(om) => match encoded_of(om, fmt) {
                Some(v) => Ok(v),
                None => Err(Error::EncodeError),
            },
        },
    }
}

/// Crop (when a rectangle was requested) and encode an already decoded
/// bitmap: the path a request takes when the single-flight cache already
/// holds the source, so that no caller ever re-fetches or re-decodes what a
/// producer decoded once. Fails with the crop-bounds error exactly on an
/// out-of-bounds rectangle, and with the encode error exactly when the codec
/// yields nothing.
pub fn transform_bitmap(src: &Bitmap, crop: &Option<CropRect>, fmt: ImgFormat) -> (r: Result<
    Vec<u8>,
    Error,
>)
    requires
        src.wf(),
    ensures
        match r {
            Ok(v) => spec_output(src.model(), *crop) is Ok && encoded_of(
                spec_output(src.model(), *crop)->Ok_0,
                fmt,
            ) == Some(v@),
            Err(e) => spec_output(src.model(), *crop) == Err::<BitmapModel, Error>(e) || (
            spec_output(src.model(), *crop) is Ok && encoded_of(
                spec_output(src.model(), *crop)->Ok_0,
                fmt,
            ) is None && e == Error::EncodeError),
        },
{
    let out = match crate::bitmap::output_bitmap(src, crop) {
        Ok(b) => b,
        Err(e) => return Err(e),
    };
    match encode_bitmap(&out, fmt) {
        Ok(v) => Ok(v),
        Err(e) => Err(e),
    }
}

/// Decode the fetched bytes, crop when a rectangle was requested, and encode
/// into the negotiated format. Fails exactly as `spec_transform` says: bad
/// bytes give the decode error, an out-of-bounds rectangle the crop-bounds
/// error, a codec failure the encode error — and a failure yields no bytes
/// at all.
pub fn transform(bytes: &Vec<u8>, crop: &Option<CropRect>, fmt: ImgFormat) -> (r: Result<
    Vec<u8>,
    Error,
>)
    ensures
        match r {
            Ok(v) => spec_transform(bytes@, *crop, fmt) == Ok::<Seq<u8>, Error>(v@),
            Err(e) => spec_transform(bytes@, *crop, fmt) == Err::<Seq<u8>, Error>(e),
        },
{
    let bmp = match decode_image(bytes) {
        Ok(b) => b,
        Err(e) => return Err(e),
    };
    transform_bitmap(&bmp, crop, fmt)
}

/// Re-encoding is deterministic: one decoded bitmap, transformed twice under
/// the same crop request and the same negotiated format, yields byte-identical
/// output on both occasions.
pub proof fn lemma_transform_deterministic(
    bytes1: Seq<u8>,
    bytes2: Seq<u8>,
    crop: Option<CropRect>,
    fmt: ImgFormat,
)
    requires
        bytes1 == bytes2,
    ensures
        spec_transform(bytes1, crop, fmt) == spec_transform(bytes2, crop, fmt),
{
}

} // verus!
