//! Page sizes: the standard paper formats, custom dimensions, and the
//! reading of a page-size token into either.
//!
//! A token is compared in lower case and without surrounding white space. It
//! is either the name of a standard format, optionally followed by `^t` to
//! swap width and height, or a custom size `<width>x<height>` in which each
//! side is a numeral followed by one of the units `mm`, `cm` and `in`.

use vstd::prelude::*;
use vstd::slice::slice_subrange;
use crate::error::{Error, ErrorView};
use crate::length::{Mm, UNITS_PER_CM, UNITS_PER_INCH, UNITS_PER_MM};
use crate::number::{check_numeral, is_numeral, numeral_to_units, numeral_units};
use crate::text::{
    char_is_letter, find_first, first_index, is_letter, lemma_first_index, normalize, normalized,
    spells, text_of,
};

verus! {

/// The width and height of a page.
#[derive(Debug, Clone, Copy, PartialEq, Eq, Structural)]
pub struct PageSizeInMm {
    pub width: Mm,
    pub height: Mm,
}

impl PageSizeInMm {
    /// The same page turned by a quarter: width and height swapped.
    pub open spec fn inverted(self) -> PageSizeInMm {
        PageSizeInMm { width: self.height, height: self.width }
    }

    /// Whether both sides have a length.
    pub open spec fn is_positive(self) -> bool {
        self.width.0 > 0 && self.height.0 > 0
    }

    /// Swaps width and height.
    pub fn invert(self) -> (r: Self)
        ensures
            r == self.inverted(),
    {
        let PageSizeInMm { width, height } = self;
        PageSizeInMm { width: height, height: width }
    }
}

/// The standard paper formats.
#[derive(Debug, Clone, Copy, PartialEq, Eq, Hash, Structural)]
pub enum PageSizeFormat {
    A0,
    A1,
    A2,
    A3,
    A4,
    A5,
    A6,
    B0,
    B1,
    B2,
    B3,
    B4,
    B5,
    B6,
    Jb0,
    Jb1,
    Jb2,
    Jb3,
    Jb4,
    Jb5,
    Jb6,
    Letter,
    Legal,
    Tabloid,
}

/// A page of `width` by `height` billionths of a millimetre.
pub open spec fn page_of(width: nat, height: nat) -> PageSizeInMm {
    PageSizeInMm { width: Mm(width as u64), height: Mm(height as u64) }
}

impl PageSizeFormat {
    /// The format that goes by the lower-case name `name`, if any.
    pub open spec fn named(name: Seq<char>) -> Option<PageSizeFormat> {
        if name == "a0"@ {
            Some(PageSizeFormat::A0)
        } else if name == "a1"@ {
            Some(PageSizeFormat::A1)
        } else if name == "a2"@ {
            Some(PageSizeFormat::A2)
        } else if name == "a3"@ {
            Some(PageSizeFormat::A3)
        } else if name == "a4"@ {
            Some(PageSizeFormat::A4)
        } else if name == "a5"@ {
            Some(PageSizeFormat::A5)
        } else if name == "a6"@ {
            Some(PageSizeFormat::A6)
        } else if name == "b0"@ {
            Some(PageSizeFormat::B0)
        } else if name == "b1"@ {
            Some(PageSizeFormat::B1)
        } else if name == "b2"@ {
            Some(PageSizeFormat::B2)
        } else if name == "b3"@ {
            Some(PageSizeFormat::B3)
        } else if name == "b4"@ {
            Some(PageSizeFormat::B4)
        } else if name == "b5"@ {
            Some(PageSizeFormat::B5)
        } else if name == "b6"@ {
            Some(PageSizeFormat::B6)
        } else if name == "jb0"@ {
            Some(PageSizeFormat::Jb0)
        } else if name == "jb1"@ {
            Some(PageSizeFormat::Jb1)
        } else if name == "jb2"@ {
            Some(PageSizeFormat::Jb2)
        } else if name == "jb3"@ {
            Some(PageSizeFormat::Jb3)
        } else if name == "jb4"@ {
            Some(PageSizeFormat::Jb4)
        } else if name == "jb5"@ {
            Some(PageSizeFormat::Jb5)
        } else if name == "jb6"@ {
            Some(PageSizeFormat::Jb6)
        } else if name == "letter"@ {
            Some(PageSizeFormat::Letter)
        } else if name == "legal"@ {
            Some(PageSizeFormat::Legal)
        } else if name == "tabloid"@ {
            Some(PageSizeFormat::Tabloid)
        } else {
            None
        }
    }

    /// The size of a page of this format.
    pub open spec fn page_size(self) -> PageSizeInMm {
        match self {
            PageSizeFormat::A0 => page_of(841_000_000_000, 1_189_000_000_000),
            PageSizeFormat::A1 => page_of(594_000_000_000, 841_000_000_000),
            PageSizeFormat::A2 => page_of(420_000_000_000, 594_000_000_000),
            PageSizeFormat::A3 => page_of(297_000_000_000, 420_000_000_000),
            PageSizeFormat::A4 => page_of(210_000_000_000, 297_000_000_000),
            PageSizeFormat::A5 => page_of(148_000_000_000, 210_000_000_000),
            PageSizeFormat::A6 => page_of(105_000_000_000, 148_000_000_000),
            PageSizeFormat::B0 => page_of(1_000_000_000_000, 1_414_000_000_000),
            PageSizeFormat::B1 => page_of(707_000_000_000, 1_000_000_000_000),
            PageSizeFormat::B2 => page_of(500_000_000_000, 707_000_000_000),
            PageSizeFormat::B3 => page_of(353_000_000_000, 500_000_000_000),
            PageSizeFormat::B4 => page_of(250_000_000_000, 353_000_000_000),
            PageSizeFormat::B5 => page_of(176_000_000_000, 250_000_000_000),
            PageSizeFormat::B6 => page_of(125_000_000_000, 176_000_000_000),
            PageSizeFormat::Jb0 => page_of(1_030_000_000_000, 456_000_000_000),
            PageSizeFormat::Jb1 => page_of(728_000_000_000, 1_030_000_000_000),
            PageSizeFormat::Jb2 => page_of(515_000_000_000, 728_000_000_000),
            PageSizeFormat::Jb3 => page_of(364_000_000_000, 515_000_000_000),
            PageSizeFormat::Jb4 => page_of(257_000_000_000, 364_000_000_000),
            PageSizeFormat::Jb5 => page_of(182_000_000_000, 257_000_000_000),
            PageSizeFormat::Jb6 => page_of(128_000_000_000, 182_000_000_000),
            PageSizeFormat::Letter => page_of(215_900_000_000, 279_400_000_000),
            PageSizeFormat::Legal => page_of(215_900_000_000, 355_600_000_000),
            PageSizeFormat::Tabloid => page_of(279_400_000_000, 431_800_000_000),
        }
    }

    /// Finds the format that goes by the lower-case name `name`.
    pub fn lookup(name: &[char]) -> (r: Option<PageSizeFormat>)
        ensures
            r == Self::named(name@),
    {
        if spells(name, "a0") {
            Some(PageSizeFormat::A0)
        } else if spells(name, "a1") {
            Some(PageSizeFormat::A1)
        } else if spells(name, "a2") {
            Some(PageSizeFormat::A2)
        } else if spells(name, "a3") {
            Some(PageSizeFormat::A3)
        } else if spells(name, "a4") {
            Some(PageSizeFormat::A4)
        } else if spells(name, "a5") {
            Some(PageSizeFormat::A5)
        } else if spells(name, "a6") {
            Some(PageSizeFormat::A6)
        } else if spells(name, "b0") {
            Some(PageSizeFormat::B0)
        } else if spells(name, "b1") {
            Some(PageSizeFormat::B1)
        } else if spells(name, "b2") {
            Some(PageSizeFormat::B2)
        } else if spells(name, "b3") {
            Some(PageSizeFormat::B3)
        } else if spells(name, "b4") {
            Some(PageSizeFormat::B4)
        } else if spells(name, "b5") {
            Some(PageSizeFormat::B5)
        } else if spells(name, "b6") {
            Some(PageSizeFormat::B6)
        } else if spells(name, "jb0") {
            Some(PageSizeFormat::Jb0)
        } else if spells(name, "jb1") {
            Some(PageSizeFormat::Jb1)
        } else if spells(name, "jb2") {
            Some(PageSizeFormat::Jb2)
        } else if spells(name, "jb3") {
            Some(PageSizeFormat::Jb3)
        } else if spells(name, "jb4") {
            Some(PageSizeFormat::Jb4)
        } else if spells(name, "jb5") {
            Some(PageSizeFormat::Jb5)
        } else if spells(name, "jb6") {
            Some(PageSizeFormat::Jb6)
        } else if spells(name, "letter") {
            Some(PageSizeFormat::Letter)
        } else if spells(name, "legal") {
            Some(PageSizeFormat::Legal)
        } else if spells(name, "tabloid") {
            Some(PageSizeFormat::Tabloid)
        } else {
            None
        }
    }

    /// The size of a page of this format.
    pub fn to_page_size(self) -> (r: PageSizeInMm)
        ensures
            r == self.page_size(),
            r.is_positive(),
    {
        let (width, height): (u64, u64) = match self {
            PageSizeFormat::A0 => (841_000_000_000, 1_189_000_000_000),
            PageSizeFormat::A1 => (594_000_000_000, 841_000_000_000),
            PageSizeFormat::A2 => (420_000_000_000, 594_000_000_000),
            PageSizeFormat::A3 => (297_000_000_000, 420_000_000_000),
            PageSizeFormat::A4 => (210_000_000_000, 297_000_000_000),
            PageSizeFormat::A5 => (148_000_000_000, 210_000_000_000),
            PageSizeFormat::A6 => (105_000_000_000, 148_000_000_000),
            PageSizeFormat::B0 => (1_000_000_000_000, 1_414_000_000_000),
            PageSizeFormat::B1 => (707_000_000_000, 1_000_000_000_000),
            PageSizeFormat::B2 => (500_000_000_000, 707_000_000_000),
            PageSizeFormat::B3 => (353_000_000_000, 500_000_000_000),
            PageSizeFormat::B4 => (250_000_000_000, 353_000_000_000),
            PageSizeFormat::B5 => (176_000_000_000, 250_000_000_000),
            PageSizeFormat::B6 => (125_000_000_000, 176_000_000_000),
            PageSizeFormat::Jb0 => (1_030_000_000_000, 456_000_000_000),
            PageSizeFormat::Jb1 => (728_000_000_000, 1_030_000_000_000),
            PageSizeFormat::Jb2 => (515_000_000_000, 728_000_000_000),
            PageSizeFormat::Jb3 => (364_000_000_000, 515_000_000_000),
            PageSizeFormat::Jb4 => (257_000_000_000, 364_000_000_000),
            PageSizeFormat::Jb5 => (182_000_000_000, 257_000_000_000),
            PageSizeFormat::Jb6 => (128_000_000_000, 182_000_000_000),
            PageSizeFormat::Letter => (215_900_000_000, 279_400_000_000),
            PageSizeFormat::Legal => (215_900_000_000, 355_600_000_000),
            PageSizeFormat::Tabloid => (279_400_000_000, 431_800_000_000),
        };
        PageSizeInMm { width: Mm(width), height: Mm(height) }
    }
}

/// Whether the normalized token `t` ends in the orientation suffix `^t`.
pub open spec fn has_orientation_suffix(t: Seq<char>) -> bool {
    t.len() >= 2 && t[t.len() - 2] == '^' && t[t.len() - 1] == 't'
}

/// The part of the normalized token `t` that names a format: `t` without its
/// orientation suffix, if it has one.
pub open spec fn format_name(t: Seq<char>) -> Seq<char> {
    if has_orientation_suffix(t) {
        t.take(t.len() - 2)
    } else {
        t
    }
}

/// The page that the normalized token `t` asks for by naming a standard
/// format, turned where `t` carries the orientation suffix.
pub open spec fn standard_size(t: Seq<char>) -> Option<PageSizeInMm> {
    match PageSizeFormat::named(format_name(t)) {
        Some(format) => Some(
            if has_orientation_suffix(t) {
                format.page_size().inverted()
            } else {
                format.page_size()
            },
        ),
        None => None,
    }
}

/// The width side of a custom size: what stands before its first `x`.
pub open spec fn width_side(t: Seq<char>) -> Seq<char> {
    t.take(first_index(t, 'x'))
}

/// The height side of a custom size: what stands behind its first `x`.
pub open spec fn height_side(t: Seq<char>) -> Seq<char> {
    t.skip(first_index(t, 'x') + 1)
}

/// The unit of one side: its last two characters.
pub open spec fn side_unit(side: Seq<char>) -> Seq<char> {
    side.skip(side.len() - 2)
}

/// The numeral of one side: all but its last two characters.
pub open spec fn side_numeral(side: Seq<char>) -> Seq<char> {
    side.take(side.len() - 2)
}

/// Whether `side` has the shape of a dimension: a numeral followed by two
/// letters.
pub open spec fn is_side(side: Seq<char>) -> bool {
    &&& side.len() >= 3
    &&& is_letter(side[side.len() - 2])
    &&& is_letter(side[side.len() - 1])
    &&& is_numeral(side_numeral(side))
}

/// Whether the normalized token `t` has the shape of a custom size: two
/// dimensions with an `x` between them.
pub open spec fn has_custom_shape(t: Seq<char>) -> bool {
    &&& first_index(t, 'x') < t.len()
    &&& is_side(width_side(t))
    &&& is_side(height_side(t))
}

/// The length of the unit `unit` in billionths of a millimetre, for the units
/// that are known.
pub open spec fn unit_length(unit: Seq<char>) -> Option<nat> {
    if unit == "mm"@ {
        Some(UNITS_PER_MM as nat)
    } else if unit == "cm"@ {
        Some(UNITS_PER_CM as nat)
    } else if unit == "in"@ {
        Some(UNITS_PER_INCH as nat)
    } else {
        None
    }
}

/// The length that `side` writes, in billionths of a millimetre, rounded
/// down.
pub open spec fn side_length(side: Seq<char>) -> nat
    recommends
        unit_length(side_unit(side)) is Some,
{
    numeral_units(side_numeral(side), unit_length(side_unit(side))->0)
}

/// What the normalized token `t` yields when read as a custom size; `token`
/// is the token as it was given.
pub open spec fn custom_size(t: Seq<char>, token: Seq<char>) -> Result<PageSizeInMm, ErrorView> {
    if !has_custom_shape(t) {
        Err(ErrorView::InvalidPageSize(token))
    } else if unit_length(side_unit(width_side(t))) is None {
        Err(ErrorView::InvalidUnit(side_unit(width_side(t))))
    } else if unit_length(side_unit(height_side(t))) is None {
        Err(ErrorView::InvalidUnit(side_unit(height_side(t))))
    } else {
        let width = side_length(width_side(t));
        let height = side_length(height_side(t));
        if 0 < width <= u64::MAX && 0 < height <= u64::MAX {
            Ok(page_of(width, height))
        } else {
            Err(ErrorView::InvalidDimensions)
        }
    }
}

/// What the token `token` yields: the page of a standard format where it
/// names one, else what it yields as a custom size.
pub open spec fn resolved(token: Seq<char>) -> Result<PageSizeInMm, ErrorView> {
    let t = normalized(token);
    match standard_size(t) {
        Some(page) => Ok(page),
        None => custom_size(t, token),
    }
}

/// Whether the result `r` is the outcome `expected`, the texts of an error
/// compared by their characters.
pub open spec fn agrees(
    r: Result<PageSizeInMm, Error>,
    expected: Result<PageSizeInMm, ErrorView>,
) -> bool {
    match r {
        Ok(page) => expected == Ok::<PageSizeInMm, ErrorView>(page),
        Err(e) => expected == Err::<PageSizeInMm, ErrorView>(e@),
    }
}

/// Whether `side` has the shape of a dimension.
fn check_side(side: &[char]) -> (r: bool)
    ensures
        r == is_side(side@),
{
    let n = side.len();
    n >= 3 && char_is_letter(side[n - 2]) && char_is_letter(side[n - 1]) && check_numeral(
        slice_subrange(side, 0, n - 2),
    )
}

/// The length of the unit that `side` ends in, when it is a known one.
fn unit_of(side: &[char]) -> (r: Option<u64>)
    requires
        side@.len() >= 2,
    ensures
        r is Some <==> unit_length(side_unit(side@)) is Some,
        r is Some ==> r->0 == unit_length(side_unit(side@))->0,
        r is Some ==> r->0 > 0,
{
    let n = side.len();
    let unit = slice_subrange(side, n - 2, n);
    if spells(unit, "mm") {
        Some(UNITS_PER_MM)
    } else if spells(unit, "cm") {
        Some(UNITS_PER_CM)
    } else if spells(unit, "in") {
        Some(UNITS_PER_INCH)
    } else {
        None
    }
}

/// Reads the normalized token `t` as a custom size; `token` is the token as
/// it was given.
fn resolve_custom(t: &[char], token: &str) -> (r: Result<PageSizeInMm, Error>)
    ensures
        agrees(r, custom_size(t@, token@)),
{
    let n = t.len();
    let x = find_first(t, 'x');
    if x >= n {
        return Err(Error::InvalidPageSize(token.to_owned()));
    }
    let width_text = slice_subrange(t, 0, x);
    let height_text = slice_subrange(t, x + 1, n);
    if !check_side(width_text) || !check_side(height_text) {
        return Err(Error::InvalidPageSize(token.to_owned()));
    }
    let width_unit = match unit_of(width_text) {
        Some(unit) => unit,
        None => {
            let unit = slice_subrange(width_text, width_text.len() - 2, width_text.len());
            return Err(Error::InvalidUnit(text_of(unit)));
        },
    };
    let height_unit = match unit_of(height_text) {
        Some(unit) => unit,
        None => {
            let unit = slice_subrange(height_text, height_text.len() - 2, height_text.len());
            return Err(Error::InvalidUnit(text_of(unit)));
        },
    };
    let width = numeral_to_units(
        slice_subrange(width_text, 0, width_text.len() - 2),
        width_unit,
    );
    let height = numeral_to_units(
        slice_subrange(height_text, 0, height_text.len() - 2),
        height_unit,
    );
    match (width, height) {
        (Some(w), Some(h)) => {
            if w > 0 && h > 0 {
                Ok(PageSizeInMm { width: Mm(w), height: Mm(h) })
            } else {
                Err(Error::InvalidDimensions)
            }
        },
        _ => Err(Error::InvalidDimensions),
    }
}

/// Reads a page-size token.
///
/// The token names a standard format (`a4`, `letter`, ...), optionally with
/// the suffix `^t` for the turned page, or gives a custom size such as
/// `21cmx29.7cm`. Case and surrounding white space do not matter. A token
/// that is neither fails with [`Error::InvalidPageSize`]; a custom size with
/// an unknown unit fails with [`Error::InvalidUnit`]; one with a side of
/// length zero, or too long to be held, fails with
/// [`Error::InvalidDimensions`].
pub fn resolve(token: &str) -> (r: Result<PageSizeInMm, Error>)
    ensures
        agrees(r, resolved(token@)),
        r is Ok ==> r->Ok_0.is_positive(),
{
    let norm = normalize(token);
    let t = norm.as_slice();
    let n = t.len();
    let turned = n >= 2 && t[n - 2] == '^' && t[n - 1] == 't';
    let name = if turned {
        slice_subrange(t, 0, n - 2)
    } else {
        t
    };
    match PageSizeFormat::lookup(name) {
        Some(format) => {
            let page = format.to_page_size();
            if turned {
                Ok(page.invert())
            } else {
                Ok(page)
            }
        },
        None => resolve_custom(t, token),
    }
}

impl core::convert::From<PageSizeFormat> for PageSizeInMm {
    /// The size of a page of the format.
    fn from(page_size_format: PageSizeFormat) -> (r: PageSizeInMm) {
        page_size_format.to_page_size()
    }
}

impl vstd::std_specs::convert::FromSpecImpl<PageSizeFormat> for PageSizeInMm {
    open spec fn obeys_from_spec() -> bool {
        true
    }

    open spec fn from_spec(page_size_format: PageSizeFormat) -> PageSizeInMm {
        page_size_format.page_size()
    }
}

impl core::str::FromStr for PageSizeFormat {
    type Err = ();

    /// Reads the name of a standard format, in any case, with or without
    /// surrounding white space and the orientation suffix.
    fn from_str(s: &str) -> (r: Result<Self, Self::Err>)
        ensures
            r == match PageSizeFormat::named(format_name(normalized(s@))) {
                Some(format) => Ok::<PageSizeFormat, ()>(format),
                None => Err::<PageSizeFormat, ()>(()),
            },
    {
        let norm = normalize(s);
        let t = norm.as_slice();
        let n = t.len();
        let name = if n >= 2 && t[n - 2] == '^' && t[n - 1] == 't' {
            slice_subrange(t, 0, n - 2)
        } else {
            t
        };
        match PageSizeFormat::lookup(name) {
            Some(format) => Ok(format),
            None => Err(()),
        }
    }
}

impl core::str::FromStr for PageSizeInMm {
    type Err = Error;

    /// Reads a page-size token, as [`resolve`] does.
    fn from_str(pagesize: &str) -> (r: Result<Self, Self::Err>)
        ensures
            agrees(r, resolved(pagesize@)),
    {
        resolve(pagesize)
    }
}

} // verus!
