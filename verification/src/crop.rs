//! Crop requests: the optional sub-rectangle of a request, with its
//! all-or-nothing presence rule and its validity against bitmap bounds.

use vstd::prelude::*;

verus! {

/// A requested sub-rectangle of the source bitmap.
#[derive(Clone, Copy, PartialEq, Eq, Structural, Debug)]
pub struct CropRect {
    pub x: u32,
    pub y: u32,
    pub w: u32,
    pub h: u32,
}

impl CropRect {
    /// A rectangle is valid for a bitmap exactly when it lies fully inside it.
    pub open spec fn spec_valid_for(&self, width: u32, height: u32) -> bool {
        self.x + self.w <= width && self.y + self.h <= height
    }

    pub fn valid_for(&self, width: u32, height: u32) -> (r: bool)
        ensures
            r == self.spec_valid_for(width, height),
    {
        self.x as u64 + self.w as u64 <= width as u64 && self.y as u64 + self.h as u64
            <= height as u64
    }
}

/// Presence of crop parameters is all-or-nothing: if any of `x`, `y`, `w`, `h`
/// is absent, the request means "full image, no crop", even if others are
/// present.
pub open spec fn spec_crop_of_params(
    x: Option<u32>,
    y: Option<u32>,
    w: Option<u32>,
    h: Option<u32>,
) -> Option<CropRect> {
    if x is Some && y is Some && w is Some && h is Some {
        Some(CropRect { x: x->0, y: y->0, w: w->0, h: h->0 })
    } else {
        None
    }
}

pub fn crop_of_params(x: Option<u32>, y: Option<u32>, w: Option<u32>, h: Option<u32>) -> (r: Option<
    CropRect,
>)
    ensures
        r == spec_crop_of_params(x, y, w, h),
{
    match (x, y, w, h) {
        (Some(x), Some(y), Some(w), Some(h)) => Some(CropRect { x, y, w, h }),
        _ => None,
    }
}

} // verus!
