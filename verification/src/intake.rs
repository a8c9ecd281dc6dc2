//! What is decided before a receipt is read: which files are receipt images,
//! and how an image's grey levels are spread for recognition.

use crate::text::{same_text, str_to_lowercase, unicode_lowercase};
use vstd::prelude::*;

verus! {

/// The file name extensions of receipt images, in lower case.
pub open spec fn image_extensions() -> Seq<Seq<char>> {
    seq!["jpg"@, "jpeg"@, "png"@, "tiff"@, "bmp"@]
}

/// Whether an extension, in lower case, is that of a receipt image.
pub open spec fn is_listed_extension(lower: Seq<char>) -> bool {
    image_extensions().contains(lower)
}

/// Whether an extension that is already in lower case is that of a receipt
/// image.
pub fn extension_is_listed(lower: &str) -> (r: bool)
    ensures
        r == is_listed_extension(lower@),
{
    let listed: bool = same_text(lower, "jpg") || same_text(lower, "jpeg") || same_text(
        lower,
        "png",
    ) || same_text(lower, "tiff") || same_text(lower, "bmp");
    proof {
        assert(image_extensions().len() == 5);
    }
    listed
}

/// Whether a file name extension is that of a receipt image, whatever its case.
pub fn is_image_extension(extension: &str) -> (r: bool)
    ensures
        r == is_listed_extension(unicode_lowercase(extension@)),
{
    let lower = str_to_lowercase(extension);
    extension_is_listed(lower.as_str())
}

/// The grey level that `value` becomes when contrast is raised: its distance
/// from the middle grey of 128 grows by half, and the result stays within 0 and
/// 255.
pub open spec fn stretched(value: int) -> int {
    let level = (3 * value - 128) / 2;
    if level < 0 {
        0
    } else if level > 255 {
        255
    } else {
        level
    }
}

/// Raises the contrast of one grey level.
pub fn contrast_level(value: u8) -> (r: u8)
    ensures
        r == stretched(value as int),
{
    let tripled: u16 = 3 * (value as u16);
    if tripled < 128 {
        0
    } else {
        let level: u16 = (tripled - 128) / 2;
        if level > 255 {
            255
        } else {
            level as u8
        }
    }
}

} // verus!
