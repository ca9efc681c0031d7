//! Placing an image on a page of a given size.

use vstd::prelude::*;
use crate::error::Error;
use crate::image::image_transform::{can_place, fit, fitted, Transform};
use crate::image::image_x_object::{PixelDimensions, PIXEL_IN_MM};
use crate::length::Mm;
use crate::pagesize::PageSizeInMm;

verus! {

/// Fits `image_object` to a page of `page_size` at the reference resolution
/// of 300 pixels per inch: the largest uniform scale at which the whole image
/// lies on the page, centred along the axis that it does not fill.
///
/// Fails with [`Error::InvalidDimensions`] when a side of the page or of the
/// image has no length.
pub fn create_image_transform(page_size: &PageSizeInMm, image_object: &PixelDimensions) -> (r:
    Result<Transform, Error>)
    ensures
        match r {
            Ok(transform) => can_place(*page_size, *image_object, Mm(PIXEL_IN_MM)) && transform
                == fitted(*page_size, *image_object, Mm(PIXEL_IN_MM)),
            Err(e) => !can_place(*page_size, *image_object, Mm(PIXEL_IN_MM))
                && e is InvalidDimensions,
        },
{
    fit(page_size, image_object, Mm(PIXEL_IN_MM))
}

} // verus!
