//! Telling the kind of an image file by its name.

use vstd::prelude::*;
use crate::text::{after_last, chars_of, find_after_last, lowered, spells, to_lower};

verus! {

/// The kinds of image file, as far as they are told apart.
#[derive(Debug, Clone, Copy, PartialEq, Eq)]
pub enum ImageType<'a> {
    Bmp,
    Jpeg,
    Png,
    /// Any other kind; holds the name of the file.
    Unsupported(&'a str),
}

/// The extension of the file name `name` in lower case: what stands behind
/// its last point, or all of it when it holds no point.
pub open spec fn extension(name: Seq<char>) -> Seq<char> {
    lowered(name.skip(after_last(name, '.')))
}

/// The kind of the image file that goes by the name `name`.
pub open spec fn image_type_of<'a>(name: &'a str) -> ImageType<'a> {
    let ext = extension(name@);
    if ext == "bmp"@ {
        ImageType::Bmp
    } else if ext == "png"@ {
        ImageType::Png
    } else if ext == "jpg"@ || ext == "jpeg"@ {
        ImageType::Jpeg
    } else {
        ImageType::Unsupported(name)
    }
}

/// Tells the kind of an image file by the extension of its name, whatever
/// the case of its letters.
pub fn get_image_type<'a>(img_file_name: &'a str) -> (r: ImageType<'a>)
    ensures
        r == image_type_of(img_file_name),
{
    let name = chars_of(img_file_name);
    let n = name.len();
    let start = find_after_last(name.as_slice(), '.');
    let mut ext: Vec<char> = Vec::new();
    let mut i: usize = start;
    while i < n
        invariant
            n == name@.len(),
            start <= i <= n,
            ext@ == lowered(name@.subrange(start as int, i as int)),
        decreases n - i,
    {
        ext.push(to_lower(name[i]));
        i += 1;
    }
    let ext = ext.as_slice();
    if spells(ext, "bmp") {
        ImageType::Bmp
    } else if spells(ext, "png") {
        ImageType::Png
    } else if spells(ext, "jpg") || spells(ext, "jpeg") {
        ImageType::Jpeg
    } else {
        ImageType::Unsupported(img_file_name)
    }
}

} // verus!
