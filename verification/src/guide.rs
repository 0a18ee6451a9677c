//! The guide-map transform: an optionally resized, blurred, grayscaled
//! derivative of an image, used to steer a downstream generation process.
//!
//! The pipeline is resize (if a target size is given and differs), then
//! blur, then grayscale, in that order. The blur stage takes a fractional
//! sigma, which this crate does not model; the surrounding application runs
//! it between [`prepare_guide_map`] and [`finish_guide_map`], both of which
//! preserve what the other stages established.

use vstd::prelude::*;

use crate::imageio::Filter;
use crate::imageio::grayscale_rgba;
use crate::imageio::resize_with;
use crate::pixel::Dims;
use crate::pixel::PixelBuffer;
use crate::pixel::gray_pixel;

verus! {

/// The resize stage of the guide-map transform: brings the image to the
/// target size when one is given and differs from the current size, with a
/// smooth area-preserving filter; otherwise hands the image back unchanged.
pub fn prepare_guide_map(image: PixelBuffer, size: Option<Dims>) -> (r: PixelBuffer)
    requires
        image.wf(),
        image.width > 0,
        image.height > 0,
        size matches Some(s) ==> s.width > 0 && s.height > 0,
    ensures
        r.wf(),
        match size {
            Some(s) => {
                &&& r.width == s.width
                &&& r.height == s.height
                &&& (s.width == image.width && s.height == image.height ==> r == image)
            },
            None => r == image,
        },
{
    match size {
        None => image,
        Some(s) => {
            if image.width != s.width || image.height != s.height {
                resize_with(image, s.width, s.height, Filter::Triangle)
            } else {
                image
            }
        },
    }
}

/// The grayscale stage of the guide-map transform: converts the (by now
/// blurred) image to its grayscale RGBA form, of the same dimensions, with
/// the luma broadcast across R, G and B and alpha fully opaque.
pub fn finish_guide_map(image: PixelBuffer) -> (r: PixelBuffer)
    requires
        image.wf(),
    ensures
        r.wf(),
        r.width == image.width,
        r.height == image.height,
        forall|i: int| 0 <= i < r.npx() ==> #[trigger] gray_pixel(r.data@, i),
{
    grayscale_rgba(image)
}

} // verus!
