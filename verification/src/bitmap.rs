//! Decoded bitmaps: an RGBA8 pixel buffer with its dimensions, and the
//! verified crop step that copies a sub-rectangle out of it.

use vstd::prelude::*;
use vstd::arithmetic::div_mod::lemma_fundamental_div_mod_converse;
use crate::crop::CropRect;
use crate::errors::Error;

verus! {

/// The mathematical content of a bitmap: width, height, and the RGBA8 bytes
/// in row-major order.
pub type BitmapModel = (u32, u32, Seq<u8>);

/// A bitmap model is well formed when the buffer holds exactly four bytes per
/// pixel.
pub open spec fn bm_wf(m: BitmapModel) -> bool {
    m.2.len() == 4 * (m.0 as int) * (m.1 as int)
}

/// A decoded in-memory bitmap: RGBA8 bytes in row-major order.
#[derive(Debug)]
pub struct Bitmap {
    pub width: u32,
    pub height: u32,
    pub pixels: Vec<u8>,
}

/// The pixels of the sub-rectangle `r` of a bitmap of width `src_w` whose
/// buffer is `pix`, in row-major RGBA8 order.
pub open spec fn cropped_pixels(pix: Seq<u8>, src_w: u32, r: CropRect) -> Seq<u8> {
    Seq::new(
        (4 * (r.w as int) * (r.h as int)) as nat,
        |k: int|
            {
                let row = k / (4 * (r.w as int));
                let off = k % (4 * (r.w as int));
                pix[4 * ((r.y + row) * (src_w as int) + r.x) + off]
            },
    )
}

/// One byte of the crop: the byte at offset `c` of pixel `(i, j)` of the
/// cropped bitmap is the byte at offset `c` of pixel `(r.y + i, r.x + j)` of
/// the source.
proof fn lemma_crop_cell(pix: Seq<u8>, src_w: u32, r: CropRect, i: int, j: int, c: int, base: int)
    requires
        0 <= c < 4,
        0 <= i,
        0 <= j < r.w,
        0 <= 4 * (i * (r.w as int)) + 4 * j + c < cropped_pixels(pix, src_w, r).len(),
        base == 4 * ((r.y + i) * (src_w as int) + (r.x + j)),
    ensures
        cropped_pixels(pix, src_w, r)[4 * (i * (r.w as int)) + 4 * j + c] == pix[base + c],
{
    let wi = r.w as int;
    let m = 4 * (i * wi) + 4 * j;
    assert(4 * (i * wi) + 4 * j + c == i * (4 * wi) + (4 * j + c)) by (nonlinear_arith);
    lemma_fundamental_div_mod_converse(m + c, 4 * wi, i, 4 * j + c);
    assert(cropped_pixels(pix, src_w, r)[m + c] == pix[4 * ((r.y + i) * (src_w as int) + r.x) + (4
        * j + c)]);
    assert(base + c == 4 * ((r.y + i) * (src_w as int) + r.x) + (4 * j + c)) by (nonlinear_arith)
        requires
            base == 4 * ((r.y + i) * (src_w as int) + (r.x + j)),
    ;
}

impl Bitmap {
    pub open spec fn wf(&self) -> bool {
        bm_wf(self.model())
    }

    pub open spec fn model(&self) -> BitmapModel {
        (self.width, self.height, self.pixels@)
    }

    /// An owned copy with the same model. Decoded bitmaps are immutable once
    /// produced; sharing one is sharing its value.
    pub fn duplicate(&self) -> (r: Bitmap)
        ensures
            r.model() == self.model(),
    {
        let n = self.pixels.len();
        let pixels = crate::bytes::subvec(&self.pixels, 0, n);
        proof {
            assert(self.pixels@.subrange(0, self.pixels@.len() as int) =~= self.pixels@);
        }
        Bitmap { width: self.width, height: self.height, pixels }
    }

    /// Copy the rectangle `r` out of the bitmap. Succeeds exactly when the
    /// rectangle lies within the bitmap's bounds; an out-of-bounds rectangle
    /// is answered with the crop-bounds error and no partial output.
    pub fn extract(&self, r: &CropRect) -> (out: Result<Bitmap, Error>)
        requires
            self.wf(),
        ensures
            match out {
                Ok(b) => {
                    &&& r.spec_valid_for(self.width, self.height)
                    &&& b.wf()
                    &&& b.width == r.w
                    &&& b.height == r.h
                    &&& b.pixels@ == cropped_pixels(self.pixels@, self.width, *r)
                },
                Err(e) => {
                    &&& !r.spec_valid_for(self.width, self.height)
                    &&& e == Error::InvalidCropBounds
                },
            },
    {
        if !r.valid_for(self.width, self.height) {
            return Err(Error::InvalidCropBounds);
        }
        let w = r.w as usize;
        let h = r.h as usize;
        let sw = self.width as usize;
        let ghost pix = self.pixels@;
        let ghost cp = cropped_pixels(self.pixels@, self.width, *r);
        proof {
            assert(cp.len() == 4 * (w as int) * (h as int));
        }
        let pn = self.pixels.len();
        let mut out: Vec<u8> = Vec::new();
        let mut i: usize = 0;
        while i < h
            invariant
                pn == pix.len(),
                self.wf(),
                r.spec_valid_for(self.width, self.height),
                w == r.w,
                h == r.h,
                sw == self.width,
                pix == self.pixels@,
                cp == cropped_pixels(pix, self.width, *r),
                cp.len() == 4 * (w as int) * (h as int),
                i <= h,
                out@.len() == 4 * (i * (w as int)),
                out@ == cp.take(out@.len() as int),
            decreases h - i,
        {
            let mut j: usize = 0;
            proof {
                assert((i + 1) * (w as int) <= (h as int) * (w as int)) by (nonlinear_arith)
                    requires
                        i < h,
                        0 <= w,
                ;
                assert(4 * (w as int) * (h as int) == 4 * ((h as int) * (w as int)))
                    by (nonlinear_arith);
                assert(4 * (sw as int) * (self.height as int) == self.pixels@.len())
                    by (nonlinear_arith)
                    requires
                        self.pixels@.len() == 4 * (self.width as int) * (self.height as int),
                        sw == self.width,
                ;
            }
            while j < w
                invariant
                    pn == pix.len(),
                    self.wf(),
                    r.spec_valid_for(self.width, self.height),
                    w == r.w,
                    h == r.h,
                    sw == self.width,
                    pix == self.pixels@,
                    cp == cropped_pixels(pix, self.width, *r),
                    cp.len() == 4 * (w as int) * (h as int),
                    i < h,
                    j <= w,
                    (i + 1) * (w as int) <= (h as int) * (w as int),
                    cp.len() == 4 * ((h as int) * (w as int)),
                    4 * (sw as int) * (self.height as int) == pix.len(),
                    out@.len() == 4 * (i * (w as int)) + 4 * j,
                    out@ == cp.take(out@.len() as int),
                decreases w - j,
            {
                let ghost m = out@.len() as int;
                proof {
                    assert(m + 4 <= cp.len()) by (nonlinear_arith)
                        requires
                            m == 4 * (i * (w as int)) + 4 * j,
                            j < w,
                            (i + 1) * (w as int) <= (h as int) * (w as int),
                            cp.len() == 4 * ((h as int) * (w as int)),
                    ;
                }
                let row = r.y as usize + i;
                let col = r.x as usize + j;
                proof {
                    assert(4 * ((row as int) * (sw as int) + (col as int)) + 4 <= pix.len())
                        by (nonlinear_arith)
                        requires
                            row as int == r.y + i,
                            col as int == r.x + j,
                            0 <= r.y + i < self.height as int,
                            0 <= r.x + j < sw as int,
                            0 <= sw as int,
                            pix.len() == 4 * (sw as int) * (self.height as int),
                    ;
                }
                let base = 4 * (row * sw + col);
                proof {
                    lemma_crop_cell(pix, self.width, *r, i as int, j as int, 0, base as int);
                    lemma_crop_cell(pix, self.width, *r, i as int, j as int, 1, base as int);
                    lemma_crop_cell(pix, self.width, *r, i as int, j as int, 2, base as int);
                    lemma_crop_cell(pix, self.width, *r, i as int, j as int, 3, base as int);
                }
                out.push(self.pixels[base]);
                out.push(self.pixels[base + 1]);
                out.push(self.pixels[base + 2]);
                out.push(self.pixels[base + 3]);
                proof {
                    assert(out@ =~= cp.take(m + 4));
                }
                j = j + 1;
            }
            proof {
                assert(4 * (i * (w as int)) + 4 * (w as int) == 4 * ((i + 1) * (w as int)))
                    by (nonlinear_arith);
            }
            i = i + 1;
        }
        proof {
            assert(4 * ((h as int) * (w as int)) == 4 * (w as int) * (h as int))
                by (nonlinear_arith);
            assert(out@ =~= cp);
        }
        let b = Bitmap { width: r.w, height: r.h, pixels: out };
        Ok(b)
    }
}

/// The bitmap handed to the encoder: the source itself when no crop was
/// requested, the extracted rectangle when a valid one was, and the
/// crop-bounds error otherwise.
pub open spec fn spec_output(m: BitmapModel, crop: Option<CropRect>) -> Result<BitmapModel, Error> {
    match crop {
        None => Ok(m),
        Some(r) => if r.spec_valid_for(m.0, m.1) {
            Ok((r.w, r.h, cropped_pixels(m.2, m.0, r)))
        } else {
            Err(Error::InvalidCropBounds)
        },
    }
}

/// Produce the output bitmap for a request: the whole source for "no crop",
/// or the requested rectangle.
pub fn output_bitmap(src: &Bitmap, crop: &Option<CropRect>) -> (out: Result<Bitmap, Error>)
    requires
        src.wf(),
    ensures
        match out {
            Ok(b) => b.wf() && spec_output(src.model(), *crop) == Ok::<BitmapModel, Error>(
                b.model(),
            ),
            Err(e) => spec_output(src.model(), *crop) == Err::<BitmapModel, Error>(e),
        },
{
    match crop {
        None => Ok(src.duplicate()),
        Some(r) => src.extract(r),
    }
}

/// A request without crop parameters keeps the source bitmap: the output
/// bitmap and in particular its dimensions are exactly the source's.
pub proof fn lemma_no_crop_keeps_source(m: BitmapModel)
    ensures
        spec_output(m, None) == Ok::<BitmapModel, Error>(m),
{
}

/// A valid crop rectangle yields a bitmap of exactly the requested
/// dimensions `(w, h)`.
pub proof fn lemma_valid_crop_dimensions(m: BitmapModel, r: CropRect)
    requires
        r.spec_valid_for(m.0, m.1),
    ensures
        spec_output(m, Some(r)) is Ok,
        spec_output(m, Some(r))->Ok_0.0 == r.w,
        spec_output(m, Some(r))->Ok_0.1 == r.h,
{
}

/// A crop rectangle that exceeds the bitmap's bounds fails with the
/// crop-bounds error and produces no bitmap at all.
pub proof fn lemma_invalid_crop_rejected(m: BitmapModel, r: CropRect)
    requires
        !r.spec_valid_for(m.0, m.1),
    ensures
        spec_output(m, Some(r)) == Err::<BitmapModel, Error>(Error::InvalidCropBounds),
{
}

} // verus!
