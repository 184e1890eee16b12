//! From grey samples to a two-level image, by error-diffusion dithering.

use crate::bitmap::{threshold, BinaryImage, ImageView};
use vstd::prelude::*;

verus! {

/// The luma samples that `image::imageops::dither` leaves in a grey image
/// of the given extent and samples when it is called with the colour map
/// `image::imageops::BiLevel`.
pub uninterp spec fn dithered(width: u32, height: u32, luma: Seq<u8>) -> Seq<u8>;

/// Calls `image::imageops::dither` with the colour map `BiLevel` on the
/// grey image of `width` by `height` samples in `luma`, row by row. Not
/// proved: that the samples which come back are a function of the extent
/// and the samples that went in, and that there are as many of them. The
/// outside function hands the error of the first sample of a row to its
/// right neighbour, and works on a last row, without asking whether they
/// are there: it panics on an image less than two samples wide or without
/// a row, which `requires` leaves out. With one sample for every position
/// `GrayImage::from_raw` has an image to give.
#[verifier::external_body]
fn dither_bilevel(width: u32, height: u32, luma: Vec<u8>) -> (out: Vec<u8>)
    requires
        width >= 2,
        height >= 1,
        luma@.len() == width * height,
    ensures
        out@ == dithered(width, height, luma@),
        out@.len() == luma@.len(),
{
    let mut grey = ::image::GrayImage::from_raw(width, height, luma).unwrap();
    ::image::imageops::dither(&mut grey, &::image::imageops::BiLevel);
    grey.into_raw()
}

/// Whether a grey image of this extent and this many samples can be
/// dithered: it has one sample for every position, and is at least two
/// samples wide and one high.
pub open spec fn can_dither(width: u32, height: u32, samples: nat) -> bool {
    width >= 2 && height >= 1 && samples == width * height
}

/// Dithers the grey image of `width` by `height` luma samples to two
/// levels and takes every sample of half intensity or above as a dot that
/// is on.
pub fn binarize(width: u32, height: u32, luma: Vec<u8>) -> (made: Option<BinaryImage>)
    ensures
        made is Some <==> can_dither(width, height, luma@.len()),
        made matches Some(image) ==> image@ == (ImageView {
            width: width as nat,
            height: height as nat,
            pixels: threshold(dithered(width, height, luma@)),
        }),
{
    assert(width * height <= u64::MAX) by (nonlinear_arith)
        requires
            width <= u32::MAX,
            height <= u32::MAX,
    ;
    if width < 2 || height < 1 || luma.len() as u64 != width as u64 * height as u64 {
        return None;
    }
    let levels = dither_bilevel(width, height, luma);
    BinaryImage::from_luma(width, height, levels.as_slice())
}

} // verus!
