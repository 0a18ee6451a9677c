//! The boundary to the external image codec and geometry library.
//!
//! Decoding, resizing and grayscale conversion are done by the `image`
//! crate. Each call is wrapped in a trusted function whose contract states
//! what the crate's code guarantees about the result; everything else in
//! this crate is verified against those contracts.

use vstd::prelude::*;

use crate::pixel::PixelBuffer;
use crate::pixel::gray_pixel;

verus! {

#[verifier::external_type_specification]
#[verifier::external_body]
pub struct ExDynamicImage(image::DynamicImage);

#[verifier::external_type_specification]
#[verifier::external_body]
pub struct ExImageError(image::ImageError);

/// An interpolation filter of the external resize collaborator.
#[derive(Clone, Copy, PartialEq, Eq, Structural, Debug)]
pub(crate) enum Filter {
    /// A smooth area-preserving filter, used for guide maps.
    Triangle,
    /// A sharper cubic filter, used when preparing source images.
    CatmullRom,
}

/// The dimensions of the image that the external codec decodes from a byte
/// buffer, or `None` when the bytes do not decode. Decoding is a function
/// of the bytes alone, so the name is well defined; nothing is assumed
/// about which byte buffers decode.
pub uninterp spec fn decode_of(data: Seq<u8>) -> Option<(u32, u32)>;

/// Relies on image::load_from_memory: decodes an in-memory byte buffer,
/// auto-detecting the format from its magic bytes; whether the bytes decode,
/// and to which dimensions, depends on the bytes alone. The RGBA conversion
/// of the decoded image keeps its dimensions (DynamicImage::to_rgba, layout
/// as in `to_pixel_buffer`). Failures surface as the codec's error.
#[verifier::external_body]
pub(crate) fn decode_memory(data: &[u8]) -> (r: Result<PixelBuffer, image::ImageError>)
    ensures
        r is Ok <==> decode_of(data@) is Some,
        r matches Ok(b) ==> b.wf() && decode_of(data@) == Some((b.width, b.height)),
{
    match image::load_from_memory(data) {
        Ok(img) => {
            let rgba = img.to_rgba();
            let width = rgba.width();
            let height = rgba.height();
            Ok(PixelBuffer { width, height, data: rgba.into_raw() })
        },
        Err(e) => Err(e),
    }
}

/// Relies on DynamicImage::to_rgba and on the layout of ImageBuffer: the
/// RGBA conversion of a `w x h` image is a row-major buffer of exactly
/// `w * h` 4-byte pixels.
#[verifier::external_body]
pub(crate) fn to_pixel_buffer(img: image::DynamicImage) -> (r: PixelBuffer)
    ensures
        r.wf(),
{
    let rgba = img.to_rgba();
    let width = rgba.width();
    let height = rgba.height();
    PixelBuffer { width, height, data: rgba.into_raw() }
}

/// Relies on image::imageops::resize: the result has exactly the requested
/// dimensions. The filter computes weighted averages over the source, so
/// both the source and the requested dimensions must be non-empty.
#[verifier::external_body]
pub(crate) fn resize_with(img: PixelBuffer, w: u32, h: u32, filter: Filter) -> (r: PixelBuffer)
    requires
        img.wf(),
        img.width > 0,
        img.height > 0,
        w > 0,
        h > 0,
    ensures
        r.wf(),
        r.width == w,
        r.height == h,
{
    let buf = image::RgbaImage::from_raw(img.width, img.height, img.data).unwrap();
    let ft = match filter {
        Filter::Triangle => image::imageops::FilterType::Triangle,
        Filter::CatmullRom => image::imageops::FilterType::CatmullRom,
    };
    let out = image::imageops::resize(&buf, w, h, ft);
    PixelBuffer { width: w, height: h, data: out.into_raw() }
}

/// Relies on DynamicImage::grayscale and DynamicImage::to_rgba: grayscale
/// reduces the image to a single luma channel of the same dimensions, and
/// the RGBA conversion of a luma image broadcasts the luma value across
/// R, G and B with alpha 255.
#[verifier::external_body]
pub(crate) fn grayscale_rgba(img: PixelBuffer) -> (r: PixelBuffer)
    requires
        img.wf(),
    ensures
        r.wf(),
        r.width == img.width,
        r.height == img.height,
        forall|i: int| 0 <= i < r.npx() ==> #[trigger] gray_pixel(r.data@, i),
{
    let buf = image::RgbaImage::from_raw(img.width, img.height, img.data).unwrap();
    let gray = image::DynamicImage::ImageRgba8(buf).grayscale().to_rgba();
    PixelBuffer { width: img.width, height: img.height, data: gray.into_raw() }
}

} // verus!
