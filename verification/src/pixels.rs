//! Counting the pixels of a PNG image in which red outweighs green and blue.

use vstd::prelude::*;
use vstd::string::StringExecFns;
use std::fmt::Debug;
use std::io::Cursor;
use image::{GenericImageView, ImageError, ImageFormat, ImageReader};
use crate::decimal::{decimal, decimal_text};

verus! {

/// The error of the image decoder, carried through as it comes.
#[verifier::external_type_specification]
#[verifier::external_body]
pub struct ExImageError(ImageError);

/// One pixel: red, green, blue and alpha.
pub type Pixel = (u8, u8, u8, u8);

/// The pixels of a PNG file, row by row from the top and from left to right in
/// each row, where the file decodes at all.
pub uninterp spec fn png_pixels(data: Seq<u8>) -> Option<Seq<Pixel>>;

/// Reads the bytes as a PNG file: `ImageReader::new` over a cursor on the bytes,
/// `set_format` to PNG, `decode`, and `GenericImageView::pixels` over the image,
/// which walks it row by row and gives each pixel as eight-bit RGBA. Whether the
/// file decodes, and the pixels that it gives, depend on the bytes alone and are
/// named `png_pixels`.
#[verifier::external_body]
fn decode_png(data: &[u8]) -> (decoded: Result<Vec<Pixel>, ImageError>)
    ensures
        match decoded {
            Ok(pixels) => png_pixels(data@) == Some(pixels@),
            Err(_) => png_pixels(data@) is None,
        },
{
    let mut reader = ImageReader::new(Cursor::new(data));
    reader.set_format(ImageFormat::Png);
    let image = reader.decode()?;
    Ok(image.pixels().map(|(_, _, p)| (p.0[0], p.0[1], p.0[2], p.0[3])).collect())
}

/// The `Debug` form of a value. What it holds is up to the value's type.
#[verifier::external_body]
fn debug_text<T: Debug>(x: &T) -> (text: String) {
    format!("{:?}", x)
}

/// Red is more than green and blue together, their sum capped at 255.
pub open spec fn is_magic_red(p: Pixel) -> bool {
    p.0 > if p.1 + p.2 > 255 {
        255
    } else {
        p.1 + p.2
    }
}

/// How many of the pixels are magic red.
pub open spec fn magic_red_count(pixels: Seq<Pixel>) -> nat
    decreases pixels.len(),
{
    if pixels.len() == 0 {
        0
    } else {
        magic_red_count(pixels.drop_last()) + if is_magic_red(pixels.last()) {
            1nat
        } else {
            0nat
        }
    }
}

/// Words an error whose description is given: `error code: ` and then the
/// description.
pub fn error_text(detail: &str) -> (text: String)
    ensures
        text@ == "error code: "@ + detail@,
{
    let mut text = "error code: ".to_string();
    text.append(detail);
    text
}

/// Words an error: `error code: ` and then the error's `Debug` form.
pub fn stringify<T: Debug>(x: T) -> (text: String)
    ensures
        "error code: "@.is_prefix_of(text@),
{
    let detail = debug_text(&x);
    error_text(detail.as_str())
}

/// Tells whether red is more than green and blue together.
pub fn magic_red(p: Pixel) -> (b: bool)
    ensures
        b == is_magic_red(p),
{
    let others: u16 = p.1 as u16 + p.2 as u16;
    let capped: u16 = if others > 255 {
        255
    } else {
        others
    };
    p.0 as u16 > capped
}

/// Counts the magic red pixels.
pub fn count_magic_reds(pixels: &Vec<Pixel>) -> (count: usize)
    ensures
        count == magic_red_count(pixels@),
{
    let n = pixels.len();
    let mut count: usize = 0;
    let mut i: usize = 0;
    while i < n
        invariant
            n == pixels.len(),
            i <= n,
            count <= i,
            count == magic_red_count(pixels@.take(i as int)),
        decreases n - i,
    {
        assert(pixels@.take(i + 1).drop_last() == pixels@.take(i as int));
        if magic_red(pixels[i]) {
            count += 1;
        }
        i += 1;
    }
    assert(pixels@.take(n as int) == pixels@);
    count
}

/// What is reported of a decoded image: the number of magic red pixels in
/// decimal, or the worded error.
pub fn red_report(decoded: Result<Vec<Pixel>, ImageError>) -> (text: String)
    ensures
        match decoded {
            Ok(pixels) => text@ == decimal(magic_red_count(pixels@)),
            Err(_) => "error code: "@.is_prefix_of(text@),
        },
{
    match decoded {
        Ok(pixels) => decimal_text(count_magic_reds(&pixels) as u128),
        Err(e) => stringify(e),
    }
}

/// Reports the number of magic red pixels of an uploaded PNG file; with no upload
/// the number is zero.
pub fn magic_reds(upload: Option<&[u8]>) -> (text: String)
    ensures
        match upload {
            None => text@ == decimal(0),
            Some(data) => match png_pixels(data@) {
                Some(pixels) => text@ == decimal(magic_red_count(pixels)),
                None => "error code: "@.is_prefix_of(text@),
            },
        },
{
    match upload {
        None => decimal_text(0),
        Some(data) => red_report(decode_png(data)),
    }
}

} // verus!
