//! Resolving an image request into a prepared pixel buffer: decode, then an
//! optional exact resize, then an optional channel mask.

use vstd::prelude::*;

use crate::error::Error;
use crate::imageio::Filter;
use crate::imageio::decode_memory;
use crate::imageio::decode_of;
use crate::imageio::resize_with;
use crate::imageio::to_pixel_buffer;
use crate::pixel::Dims;
use crate::pixel::Mask;
use crate::pixel::PixelBuffer;
use crate::pixel::apply_mask;
use crate::pixel::gray_pixel;
use crate::pixel::masked;
use crate::pixel::masked_pixel;

verus! {

/// Where an image request's pixel data comes from.
pub enum DataSource {
    /// A raw buffer of encoded image data; the format is auto-detected.
    Memory(Vec<u8>),
    /// An already decoded image handed directly to the pipeline.
    Image(image::DynamicImage),
}

/// An image request: a data origin and an optional channel mask to apply
/// once the data is decoded.
pub struct ImageSource {
    pub data_source: DataSource,
    pub mask: Option<Mask>,
}

impl ImageSource {
    /// A request that decodes from an in-memory byte buffer, unmasked.
    pub fn from_memory(data: Vec<u8>) -> (r: ImageSource)
        ensures
            r.data_source matches DataSource::Memory(d) && d@ == data@,
            r.mask is None,
    {
        ImageSource { data_source: DataSource::Memory(data), mask: None }
    }

    /// A request that uses an already decoded image, unmasked.
    pub fn from_image(img: image::DynamicImage) -> (r: ImageSource)
        ensures
            r.data_source matches DataSource::Image(i) && i == img,
            r.mask is None,
    {
        ImageSource { data_source: DataSource::Image(img), mask: None }
    }

    /// Selects the channel mask to apply after decoding.
    pub fn mask(self, mask: Mask) -> (r: ImageSource)
        ensures
            r.data_source == self.data_source,
            r.mask == Some(mask),
    {
        ImageSource { mask: Some(mask), ..self }
    }
}

/// The requested size differs from a `width` by `height` buffer, so a
/// resize is due.
pub open spec fn resize_needed_dims(width: u32, height: u32, resize: Option<Dims>) -> bool {
    match resize {
        Some(s) => s.width != width || s.height != height,
        None => false,
    }
}

/// A resize is due but one of the dimensions involved is zero, which the
/// interpolating resize cannot handle.
pub open spec fn resize_degenerate_dims(width: u32, height: u32, resize: Option<Dims>) -> bool {
    &&& resize_needed_dims(width, height, resize)
    &&& match resize {
        Some(s) => width == 0 || height == 0 || s.width == 0 || s.height == 0,
        None => false,
    }
}

/// The requested size differs from the decoded one, so a resize is due.
pub open spec fn resize_needed(buf: PixelBuffer, resize: Option<Dims>) -> bool {
    resize_needed_dims(buf.width, buf.height, resize)
}

/// A resize is due on `buf` but one of the dimensions involved is zero.
pub open spec fn resize_degenerate(buf: PixelBuffer, resize: Option<Dims>) -> bool {
    resize_degenerate_dims(buf.width, buf.height, resize)
}

/// The post-decode half of image loading: resizes the decoded buffer to the
/// requested dimensions when they differ, then applies the channel mask if
/// one was requested. Fails only when a due resize involves an empty
/// dimension.
pub fn finish_load(buf: PixelBuffer, resize: Option<Dims>, mask: Option<Mask>) -> (r: Result<
    PixelBuffer,
    Error,
>)
    requires
        buf.wf(),
    ensures
        r is Ok <==> !resize_degenerate(buf, resize),
        match r {
            Ok(b) => {
                &&& b.wf()
                &&& match resize {
                    Some(s) => b.width == s.width && b.height == s.height,
                    None => b.width == buf.width && b.height == buf.height,
                }
                &&& (mask is Some ==> forall|i: int|
                    0 <= i < b.npx() ==> #[trigger] gray_pixel(b.data@, i))
                &&& (match mask {
                    Some(m) => {
                        &&& (!resize_needed(buf, resize) ==> b.data@ == masked(
                            buf.data@,
                            m.offset_spec(),
                        ))
                        &&& exists|rb: PixelBuffer|
                            rb.wf() && rb.width == b.width && rb.height == b.height && b.data@
                                == #[trigger] masked(rb.data@, m.offset_spec())
                    },
                    None => !resize_needed(buf, resize) ==> b == buf,
                })
            },
            Err(e) => e is DegenerateInput,
        },
{
    let sized = match resize {
        None => buf,
        Some(s) => {
            if buf.width != s.width || buf.height != s.height {
                if buf.width == 0 || buf.height == 0 || s.width == 0 || s.height == 0 {
                    return Err(Error::DegenerateInput);
                }
                resize_with(buf, s.width, s.height, Filter::CatmullRom)
            } else {
                buf
            }
        },
    };
    match mask {
        Some(m) => {
            let masked_buf = apply_mask(&sized, &m);
            proof {
                assert forall|i: int| 0 <= i < masked_buf.npx() implies #[trigger] gray_pixel(
                    masked_buf.data@,
                    i,
                ) by {
                    assert(masked_pixel(sized.data@, masked_buf.data@, m.offset_spec(), i));
                }
                assert(sized.wf() && sized.width == masked_buf.width && sized.height
                    == masked_buf.height && masked_buf.data@ == masked(
                    sized.data@,
                    m.offset_spec(),
                ));
            }
            Ok(masked_buf)
        },
        None => Ok(sized),
    }
}

/// Resolves an image request: decodes the origin into an RGBA buffer, then
/// resizes and masks it as `finish_load` states. A memory origin decodes
/// exactly when its bytes do (`decode_of`), and its decode failure surfaces
/// as the codec's error; an already decoded origin cannot fail to decode.
/// The only other failure is a due resize with a zero dimension.
pub fn load_image(src: ImageSource, resize: Option<Dims>) -> (r: Result<PixelBuffer, Error>)
    ensures
        match r {
            Ok(b) => {
                &&& b.wf()
                &&& (resize matches Some(s) ==> b.width == s.width && b.height == s.height)
                &&& (src.mask is Some ==> forall|i: int|
                    0 <= i < b.npx() ==> #[trigger] gray_pixel(b.data@, i))
                &&& (src.mask matches Some(m) ==> exists|rb: PixelBuffer|
                    rb.wf() && rb.width == b.width && rb.height == b.height && b.data@
                        == #[trigger] masked(rb.data@, m.offset_spec()))
                &&& (src.data_source is Memory && resize is None ==> decode_of(
                    src.data_source->Memory_0@,
                ) == Some((b.width, b.height)))
            },
            Err(e) => {
                &&& (e is Decode || e is DegenerateInput)
                &&& (e is DegenerateInput ==> resize is Some)
            },
        },
        (r matches Err(e) && e is Decode) <==> (src.data_source is Memory && decode_of(
            src.data_source->Memory_0@,
        ) is None),
        src.data_source is Image && resize is None ==> r is Ok,
        src.data_source is Memory ==> (decode_of(src.data_source->Memory_0@) matches Some(d) ==> (
        r is Ok <==> !resize_degenerate_dims(d.0, d.1, resize))),
{
    let buf = match src.data_source {
        DataSource::Memory(bytes) => match decode_memory(bytes.as_slice()) {
            Ok(b) => b,
            Err(e) => {
                return Err(Error::Decode(e));
            },
        },
        DataSource::Image(d) => to_pixel_buffer(d),
    };
    finish_load(buf, resize, src.mask)
}

} // verus!
