//! The size of an image, in pixels and on paper.

use vstd::prelude::*;
use crate::error::Error;
use crate::length::Mm;

verus! {

/// The side of one pixel at the reference resolution of 300 pixels per inch,
/// in billionths of a millimetre: 0.084666667 mm.
pub const PIXEL_IN_MM: u64 = 84_666_667;

/// The width and height of an image in pixels.
#[derive(Debug, Clone, Copy, PartialEq, Eq, Structural)]
pub struct PixelDimensions {
    pub width_px: u64,
    pub height_px: u64,
}

impl PixelDimensions {
    /// Whether the image has any pixels: neither side is zero.
    pub open spec fn is_positive(self) -> bool {
        self.width_px > 0 && self.height_px > 0
    }

    /// The width of the image on paper, in billionths of a millimetre, when
    /// one pixel is `pitch` wide.
    pub open spec fn width_units(self, pitch: Mm) -> nat {
        (self.width_px * pitch.0) as nat
    }

    /// The height of the image on paper, in billionths of a millimetre, when
    /// one pixel is `pitch` high.
    pub open spec fn height_units(self, pitch: Mm) -> nat {
        (self.height_px * pitch.0) as nat
    }
}

/// The length of `pixel` pixels at the reference resolution; `None` when it
/// is too long to be held.
pub fn pixel_to_mm(pixel: u64) -> (r: Option<Mm>)
    ensures
        match r {
            Some(length) => length.0 == pixel * PIXEL_IN_MM,
            None => pixel * PIXEL_IN_MM > u64::MAX,
        },
{
    match pixel.checked_mul(PIXEL_IN_MM) {
        Some(units) => Some(Mm(units)),
        None => None,
    }
}

/// The width and height of `image` on paper at the reference resolution.
///
/// Fails with [`Error::InvalidDimensions`] when the image has no pixels or a
/// side is too long to be held.
pub fn get_image_dimension_in_mm(image: &PixelDimensions) -> (r: Result<(Mm, Mm), Error>)
    ensures
        match r {
            Ok((width, height)) => {
                &&& image.is_positive()
                &&& width.0 == image.width_units(Mm(PIXEL_IN_MM))
                &&& height.0 == image.height_units(Mm(PIXEL_IN_MM))
            },
            Err(e) => {
                &&& e is InvalidDimensions
                &&& !image.is_positive() || image.width_units(Mm(PIXEL_IN_MM)) > u64::MAX
                    || image.height_units(Mm(PIXEL_IN_MM)) > u64::MAX
            },
        },
{
    if image.width_px == 0 || image.height_px == 0 {
        return Err(Error::InvalidDimensions);
    }
    match (pixel_to_mm(image.width_px), pixel_to_mm(image.height_px)) {
        (Some(width), Some(height)) => Ok((width, height)),
        _ => Err(Error::InvalidDimensions),
    }
}

} // verus!
