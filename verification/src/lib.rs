//! Page geometry and pixel preparation for laying raster images out on
//! document pages.
//!
//! Three things are decided here: which page a page-size token asks for
//! ([`pagesize`]), how an image is scaled and shifted to sit on a page
//! ([`image::image_transform`]), and what an image with an alpha channel
//! looks like over white ([`image::alpha_remover`]).
//!
//! Every quantity is exact. Lengths are whole numbers of billionths of a
//! millimetre ([`length::Mm`]), scales and shifts are fractions
//! ([`ratio::Ratio`]), and samples are composited in whole-number arithmetic.

pub mod error;
pub mod image;
pub mod image_transform;
pub mod length;
pub mod number;
pub mod pagesize;
pub mod ratio;
pub mod text;
