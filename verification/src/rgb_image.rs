//! The `image` crate's RGB buffer, as far as frame decoding uses it.

use image::RgbImage;
use vstd::prelude::*;

verus! {

/// A decoded frame held as an `image::RgbImage` (interleaved 8-bit R, G, B).
#[verifier::external_body]
pub struct RgbFrame {
    pub image: RgbImage,
}

/// The interleaved R, G, B samples that a decoded frame holds, row by row.
pub uninterp spec fn rgb_frame_samples(frame: RgbFrame) -> Seq<u8>;

/// The width and height that a decoded frame was made with.
pub uninterp spec fn rgb_frame_size(frame: RgbFrame) -> Seq<u32>;

/// `ImageBuffer::from_raw` for RGB bytes. The crate's source makes the image
/// exactly when the checked products `3 * width` and then `3 * width * height`
/// fit in a `usize` and the second is at most the buffer's length; the image
/// then keeps the buffer as its samples and the given dimensions as its size.
#[verifier::external_body]
pub(crate) fn rgb_image_from_raw(width: u32, height: u32, buf: Vec<u8>) -> (made: Option<RgbFrame>)
    ensures
        made.is_some() <==> (3 * width <= usize::MAX && 3 * width * height <= usize::MAX && 3 * width
            * height <= buf@.len()),
        made.is_some() ==> rgb_frame_samples(made.unwrap()) == buf@,
        made.is_some() ==> rgb_frame_size(made.unwrap()) == seq![width, height],
{
    RgbImage::from_raw(width, height, buf).map(|image| RgbFrame { image })
}

} // verus!
