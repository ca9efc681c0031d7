//! Placing an image on a page: the scale and the shift that fit it to a
//! given page, and the page that is derived from the image itself.
//!
//! Scales and shifts are exact fractions. A scale is a plain number; a shift
//! is a length in billionths of a millimetre.

use vstd::prelude::*;
use crate::error::Error;
use crate::image::image_x_object::{PixelDimensions, PIXEL_IN_MM};
use crate::length::Mm;
use crate::pagesize::PageSizeInMm;
use crate::ratio::Ratio;

verus! {

/// How an image is placed on its page: scaled about its lower left corner,
/// then shifted right by `translate_x` and up by `translate_y`.
#[derive(Debug, Clone, Copy, PartialEq, Eq, Structural)]
pub struct Transform {
    pub scale_x: Ratio,
    pub scale_y: Ratio,
    pub translate_x: Ratio,
    pub translate_y: Ratio,
}

/// Whether a placement exists for these inputs: the page, the image and the
/// pixel all have a size.
pub open spec fn can_place(page: PageSizeInMm, image: PixelDimensions, px_to_mm: Mm) -> bool {
    page.is_positive() && image.is_positive() && px_to_mm.0 > 0
}

/// Whether the page is relatively wider than the image, so that the image's
/// height is what limits its scale: `page.width / page.height` exceeds
/// `image.width / image.height`.
pub open spec fn height_binds(page: PageSizeInMm, image: PixelDimensions) -> bool {
    page.width.0 * image.height_px > image.width_px * page.height.0
}

/// The placement that fits `image` to `page`, with pixels `px_to_mm` wide.
///
/// Where the height binds the scale is `page.height / image height`, the
/// image fills the page from bottom to top and is centred from left to right:
/// the shift to the right is `(page.width - image.width * page.height /
/// image.height) / 2`. Where the width binds the same holds with the axes
/// exchanged.
pub open spec fn fitted(page: PageSizeInMm, image: PixelDimensions, px_to_mm: Mm) -> Transform {
    if height_binds(page, image) {
        let scale = Ratio {
            num: page.height.0 as u128,
            den: (image.height_px * px_to_mm.0) as u128,
        };
        Transform {
            scale_x: scale,
            scale_y: scale,
            translate_x: Ratio {
                num: (page.width.0 * image.height_px - image.width_px * page.height.0) as u128,
                den: (2 * image.height_px) as u128,
            },
            translate_y: Ratio { num: 0, den: 1 },
        }
    } else {
        let scale = Ratio {
            num: page.width.0 as u128,
            den: (image.width_px * px_to_mm.0) as u128,
        };
        Transform {
            scale_x: scale,
            scale_y: scale,
            translate_x: Ratio { num: 0, den: 1 },
            translate_y: Ratio {
                num: (page.height.0 * image.width_px - image.height_px * page.width.0) as u128,
                den: (2 * image.width_px) as u128,
            },
        }
    }
}

/// The product of two `u64` values.
fn product(a: u64, b: u64) -> (r: u128)
    ensures
        r == a * b,
{
    assert(a * b <= u64::MAX * u64::MAX) by (nonlinear_arith)
        requires
            a <= u64::MAX,
            b <= u64::MAX,
    ;
    (a as u128) * (b as u128)
}

/// Fits `image` to `page`: the largest uniform scale at which the whole image
/// lies on the page, with the image centred along the axis that it does not
/// fill. One pixel is `px_to_mm` wide and high.
///
/// Fails with [`Error::InvalidDimensions`] when a side of the page or of the
/// image, or the pixel, has no length.
pub fn fit(page: &PageSizeInMm, image: &PixelDimensions, px_to_mm: Mm) -> (r: Result<
    Transform,
    Error,
>)
    ensures
        match r {
            Ok(transform) => can_place(*page, *image, px_to_mm) && transform == fitted(
                *page,
                *image,
                px_to_mm,
            ),
            Err(e) => !can_place(*page, *image, px_to_mm) && e is InvalidDimensions,
        },
{
    let page_width = page.width.0;
    let page_height = page.height.0;
    let image_width = image.width_px;
    let image_height = image.height_px;
    if page_width == 0 || page_height == 0 || image_width == 0 || image_height == 0 || px_to_mm.0
        == 0 {
        return Err(Error::InvalidDimensions);
    }
    let page_by_height = product(page_width, image_height);
    let image_by_height = product(image_width, page_height);
    let zero = Ratio { num: 0, den: 1 };
    if page_by_height > image_by_height {
        let scale = Ratio { num: page_height as u128, den: product(image_height, px_to_mm.0) };
        Ok(
            Transform {
                scale_x: scale,
                scale_y: scale,
                translate_x: Ratio {
                    num: page_by_height - image_by_height,
                    den: product(2, image_height),
                },
                translate_y: zero,
            },
        )
    } else {
        let scale = Ratio { num: page_width as u128, den: product(image_width, px_to_mm.0) };
        Ok(
            Transform {
                scale_x: scale,
                scale_y: scale,
                translate_x: zero,
                translate_y: Ratio {
                    num: image_by_height - page_by_height,
                    den: product(2, image_width),
                },
            },
        )
    }
}

/// Fits `image_object` to `page_size` at the reference resolution of 300
/// pixels per inch.
pub fn get_image_transform_for_page_size(
    page_size: &PageSizeInMm,
    image_object: &PixelDimensions,
) -> (r: Result<Transform, Error>)
    ensures
        match r {
            Ok(transform) => can_place(*page_size, *image_object, Mm(PIXEL_IN_MM)) && transform
                == fitted(*page_size, *image_object, Mm(PIXEL_IN_MM)),
            Err(e) => !can_place(*page_size, *image_object, Mm(PIXEL_IN_MM))
                && e is InvalidDimensions,
        },
{
    fit(page_size, image_object, Mm(PIXEL_IN_MM))
}

/// The width of the scaled image on the page, as a fraction of billionths of
/// a millimetre, is `footprint_num / footprint_den`: the image's width on
/// paper times the scale. These are that fraction's two parts.
pub open spec fn footprint_width(image: PixelDimensions, px_to_mm: Mm, t: Transform) -> (int, int) {
    (image.width_px * px_to_mm.0 * t.scale_x.num, t.scale_x.den as int)
}

/// The two parts of the height of the scaled image on the page, as
/// [`footprint_width`] gives them for its width.
pub open spec fn footprint_height(image: PixelDimensions, px_to_mm: Mm, t: Transform) -> (
    int,
    int,
) {
    (image.height_px * px_to_mm.0 * t.scale_y.num, t.scale_y.den as int)
}

/// A fitted image keeps its proportions, touches the page's edges along one
/// axis and is not shifted along it, lies within the page along the other,
/// and is shifted along that one by half of what the page has left over.
///
/// With `w / d` the width and `h / e` the height of the scaled image, and
/// `x` and `y` the two shifts: both scales are one fraction; `x` or `y` is
/// zero; `w / d <= page.width` and `h / e <= page.height`, one of them with
/// equality; and `2 * x + w / d == page.width`, `2 * y + h / e ==
/// page.height`.
pub proof fn lemma_fit_keeps_image_on_page(
    page: PageSizeInMm,
    image: PixelDimensions,
    px_to_mm: Mm,
)
    requires
        can_place(page, image, px_to_mm),
    ensures
        ({
            let t = fitted(page, image, px_to_mm);
            let (w, d) = footprint_width(image, px_to_mm, t);
            let (h, e) = footprint_height(image, px_to_mm, t);
            &&& t.scale_x == t.scale_y
            &&& t.scale_x.is_valid() && t.translate_x.is_valid() && t.translate_y.is_valid()
            &&& t.scale_x.num > 0
            &&& t.translate_x.is_zero() || t.translate_y.is_zero()
            &&& w <= page.width.0 * d
            &&& h <= page.height.0 * e
            &&& w == page.width.0 * d || h == page.height.0 * e
            &&& 2 * t.translate_x.num * d + w * t.translate_x.den == page.width.0 * d
                * t.translate_x.den
            &&& 2 * t.translate_y.num * e + h * t.translate_y.den == page.height.0 * e
                * t.translate_y.den
        }),
{
    let t = fitted(page, image, px_to_mm);
    let pw = page.width.0 as int;
    let ph = page.height.0 as int;
    let iw = image.width_px as int;
    let ih = image.height_px as int;
    let c = px_to_mm.0 as int;
    assert(pw * ih <= u64::MAX * u64::MAX && iw * ph <= u64::MAX * u64::MAX && ih * c <= u64::MAX
        * u64::MAX && iw * c <= u64::MAX * u64::MAX && ih * c > 0 && iw * c > 0)
        by (nonlinear_arith)
        requires
            0 < pw <= u64::MAX,
            0 < ph <= u64::MAX,
            0 < iw <= u64::MAX,
            0 < ih <= u64::MAX,
            0 < c <= u64::MAX,
    ;
    if height_binds(page, image) {
        assert({
            &&& iw * c * ph <= pw * (ih * c)
            &&& ih * c * ph <= ph * (ih * c)
            &&& 2 * (pw * ih - iw * ph) * (ih * c) + iw * c * ph * (2 * ih) == pw * (ih * c) * (2
                * ih)
            &&& 2 * 0 * (ih * c) + ih * c * ph * 1 == ph * (ih * c) * 1
        }) by (nonlinear_arith)
            requires
                pw * ih > iw * ph,
                c > 0,
                ih > 0,
        ;
    } else {
        assert({
            &&& iw * c * pw <= pw * (iw * c)
            &&& ih * c * pw <= ph * (iw * c)
            &&& 2 * 0 * (iw * c) + iw * c * pw * 1 == pw * (iw * c) * 1
            &&& 2 * (ph * iw - ih * pw) * (iw * c) + ih * c * pw * (2 * iw) == ph * (iw * c) * (2
                * iw)
        }) by (nonlinear_arith)
            requires
                pw * ih <= iw * ph,
                c > 0,
                iw > 0,
        ;
    }
}

/// The least width of a page that an image makes for itself, unless the
/// caller asks otherwise, in billionths of a millimetre: 210 mm.
pub const MIN_WIDTH_IN_MM: u64 = 210_000_000_000;

/// The least height of a page that an image makes for itself, unless the
/// caller asks otherwise, in billionths of a millimetre: 297 mm.
pub const MIN_HEIGHT_IN_MM: u64 = 297_000_000_000;

/// `a / b` rounded up to a whole number.
pub open spec fn ceil_div(a: nat, b: nat) -> nat
    recommends
        b > 0,
{
    if a % b == 0 {
        a / b
    } else {
        a / b + 1
    }
}

/// The whole number by which an image of `width` by `height` is magnified
/// when it makes its own page: the larger of `min_width / width` and
/// `min_height / height`, each rounded up, and at least one.
pub open spec fn magnification(width: nat, height: nat, min_width: nat, min_height: nat) -> nat
    recommends
        width > 0,
        height > 0,
{
    let by_width = ceil_div(min_width, width);
    let by_height = ceil_div(min_height, height);
    if by_width <= 1 && by_height <= 1 {
        1
    } else if by_width >= by_height {
        by_width
    } else {
        by_height
    }
}

/// The magnification of `image` with pixels `px_to_mm` wide, for a page of at
/// least `min_width` by `min_height`.
pub open spec fn auto_scale(
    image: PixelDimensions,
    px_to_mm: Mm,
    min_width: Mm,
    min_height: Mm,
) -> nat {
    magnification(
        image.width_units(px_to_mm),
        image.height_units(px_to_mm),
        min_width.0 as nat,
        min_height.0 as nat,
    )
}

/// Whether an image can make its own page: the image and the pixel have a
/// size, and the magnified image is not too large for a page to be held.
pub open spec fn can_auto_size(
    image: PixelDimensions,
    px_to_mm: Mm,
    min_width: Mm,
    min_height: Mm,
) -> bool {
    let scale = auto_scale(image, px_to_mm, min_width, min_height);
    &&& image.is_positive()
    &&& px_to_mm.0 > 0
    &&& image.width_units(px_to_mm) * scale <= u64::MAX
    &&& image.height_units(px_to_mm) * scale <= u64::MAX
}

/// The page that `image` makes for itself, and its placement there: the page
/// is the image magnified by [`auto_scale`], and the image is scaled by that
/// number and not shifted.
pub open spec fn auto_sized(
    image: PixelDimensions,
    px_to_mm: Mm,
    min_width: Mm,
    min_height: Mm,
) -> (PageSizeInMm, Transform) {
    let scale = auto_scale(image, px_to_mm, min_width, min_height);
    (
        PageSizeInMm {
            width: Mm((image.width_units(px_to_mm) * scale) as u64),
            height: Mm((image.height_units(px_to_mm) * scale) as u64),
        },
        Transform {
            scale_x: Ratio::of_whole(scale),
            scale_y: Ratio::of_whole(scale),
            translate_x: Ratio { num: 0, den: 1 },
            translate_y: Ratio { num: 0, den: 1 },
        },
    )
}

/// Rounding a quotient up gives the least whole number of times that the
/// divisor covers the dividend.
pub proof fn lemma_ceil_div_is_least(a: nat, b: nat)
    requires
        b > 0,
    ensures
        ceil_div(a, b) * b >= a,
        ceil_div(a, b) <= a,
        forall|j: nat| j < ceil_div(a, b) ==> #[trigger] (j * b) < a,
{
    let q = a / b;
    let r = a % b;
    assert(a == q * b + r && 0 <= r < b && q <= a) by (nonlinear_arith)
        requires
            q == a / b,
            r == a % b,
            b > 0,
    ;
    assert((q + 1) * b == q * b + b) by (nonlinear_arith);
    assert(r > 0 ==> q + 1 <= a) by (nonlinear_arith)
        requires
            a == q * b + r,
            0 <= r < b,
            q >= 0,
    ;
    assert forall|j: nat| j < ceil_div(a, b) implies #[trigger] (j * b) < a by {
        if r == 0 {
            assert(j * b <= (q - 1) * b && (q - 1) * b == q * b - b) by (nonlinear_arith)
                requires
                    j <= q - 1,
                    b > 0,
            ;
        } else {
            assert(j * b <= q * b) by (nonlinear_arith)
                requires
                    j <= q,
                    b > 0,
            ;
        }
    }
}

/// The magnification is the smallest whole number, one or more, at which the
/// image is at least as wide and as high as the minimum asks.
pub proof fn lemma_magnification_is_least(
    width: nat,
    height: nat,
    min_width: nat,
    min_height: nat,
)
    requires
        width > 0,
        height > 0,
    ensures
        ({
            let k = magnification(width, height, min_width, min_height);
            &&& k >= 1
            &&& width * k >= min_width
            &&& height * k >= min_height
            &&& forall|j: nat|
                1 <= j < k ==> #[trigger] (width * j) < min_width || #[trigger] (height * j)
                    < min_height
        }),
{
    let k = magnification(width, height, min_width, min_height);
    let by_width = ceil_div(min_width, width);
    let by_height = ceil_div(min_height, height);
    lemma_ceil_div_is_least(min_width, width);
    lemma_ceil_div_is_least(min_height, height);
    assert(width * k >= min_width && height * k >= min_height) by (nonlinear_arith)
        requires
            by_width * width >= min_width,
            by_height * height >= min_height,
            k >= by_width,
            k >= by_height,
            width > 0,
            height > 0,
    ;
    assert forall|j: nat| 1 <= j < k implies #[trigger] (width * j) < min_width
        || #[trigger] (height * j) < min_height by {
        if k == by_width {
            assert(width * j == j * width) by (nonlinear_arith);
        } else {
            assert(height * j == j * height) by (nonlinear_arith);
        }
    }
}

/// `a / b` rounded up.
fn div_round_up(a: u64, b: u128) -> (r: u64)
    requires
        b > 0,
    ensures
        r == ceil_div(a as nat, b as nat),
{
    let a_wide = a as u128;
    let quotient = a_wide / b;
    proof {
        lemma_ceil_div_is_least(a as nat, b as nat);
    }
    if a_wide % b == 0 {
        quotient as u64
    } else {
        (quotient + 1) as u64
    }
}

/// Derives a page from `image` itself, with pixels `px_to_mm` wide: the
/// image magnified by the smallest whole number, one or more, that makes it
/// at least `min_width` wide and `min_height` high. The image is scaled by
/// that number and fills its page.
///
/// Fails with [`Error::InvalidDimensions`] when a side of the image, or the
/// pixel, has no length, or when the page would be too large to be held.
pub fn auto_size(image: &PixelDimensions, px_to_mm: Mm, min_width: Mm, min_height: Mm) -> (r:
    Result<(PageSizeInMm, Transform), Error>)
    ensures
        match r {
            Ok(placed) => {
                &&& can_auto_size(*image, px_to_mm, min_width, min_height)
                &&& placed == auto_sized(*image, px_to_mm, min_width, min_height)
                &&& placed.0.is_positive()
                &&& placed.0.width.0 >= min_width.0
                &&& placed.0.height.0 >= min_height.0
            },
            Err(e) => !can_auto_size(*image, px_to_mm, min_width, min_height)
                && e is InvalidDimensions,
        },
{
    if image.width_px == 0 || image.height_px == 0 || px_to_mm.0 == 0 {
        return Err(Error::InvalidDimensions);
    }
    let width = product(image.width_px, px_to_mm.0);
    let height = product(image.height_px, px_to_mm.0);
    assert(width > 0 && height > 0) by (nonlinear_arith)
        requires
            width == image.width_px * px_to_mm.0,
            height == image.height_px * px_to_mm.0,
            image.width_px > 0,
            image.height_px > 0,
            px_to_mm.0 > 0,
    ;
    let by_width = div_round_up(min_width.0, width);
    let by_height = div_round_up(min_height.0, height);
    let scale: u64 = if by_width <= 1 && by_height <= 1 {
        1
    } else if by_width >= by_height {
        by_width
    } else {
        by_height
    };
    proof {
        lemma_magnification_is_least(
            width as nat,
            height as nat,
            min_width.0 as nat,
            min_height.0 as nat,
        );
    }
    if width > u64::MAX as u128 || height > u64::MAX as u128 {
        proof {
            assert(width * scale >= width && height * scale >= height) by (nonlinear_arith)
                requires
                    scale >= 1,
            ;
        }
        return Err(Error::InvalidDimensions);
    }
    let page_width = product(width as u64, scale);
    let page_height = product(height as u64, scale);
    if page_width > u64::MAX as u128 || page_height > u64::MAX as u128 {
        return Err(Error::InvalidDimensions);
    }
    assert(page_width > 0 && page_height > 0) by (nonlinear_arith)
        requires
            page_width == width * scale,
            page_height == height * scale,
            width > 0,
            height > 0,
            scale >= 1,
    ;
    let whole = Ratio::whole(scale);
    let zero = Ratio { num: 0, den: 1 };
    Ok(
        (
            PageSizeInMm { width: Mm(page_width as u64), height: Mm(page_height as u64) },
            Transform { scale_x: whole, scale_y: whole, translate_x: zero, translate_y: zero },
        ),
    )
}

} // verus!
