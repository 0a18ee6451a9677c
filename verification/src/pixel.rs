//! The pixel data model: RGBA buffers, channel selectors, and channel masking.

use vstd::prelude::*;

verus! {

/// A pair of image dimensions in pixels.
#[derive(Clone, Copy, PartialEq, Eq, Structural, Debug)]
pub struct Dims {
    pub width: u32,
    pub height: u32,
}

/// Selects one channel of an RGBA pixel.
#[derive(Clone, Copy, PartialEq, Eq, Structural, Debug)]
pub enum Mask {
    R,
    G,
    B,
    A,
}

impl Mask {
    /// Byte offset of the selected channel within a 4-byte RGBA pixel.
    pub open spec fn offset_spec(self) -> int {
        match self {
            Mask::R => 0,
            Mask::G => 1,
            Mask::B => 2,
            Mask::A => 3,
        }
    }

    /// Maps the selector to its channel offset.
    pub fn offset(&self) -> (r: usize)
        ensures
            r == self.offset_spec(),
    {
        match self {
            Mask::R => 0,
            Mask::G => 1,
            Mask::B => 2,
            Mask::A => 3,
        }
    }
}

/// An RGBA image, 8 bits per channel, row-major, 4 bytes per pixel.
#[derive(Clone, PartialEq, Eq, Debug)]
pub struct PixelBuffer {
    pub width: u32,
    pub height: u32,
    pub data: Vec<u8>,
}

impl PixelBuffer {
    /// Well-formedness: the flat byte sequence holds exactly `width * height`
    /// 4-byte pixels.
    pub open spec fn wf(self) -> bool {
        self.data.len() == self.width as int * self.height as int * 4
    }

    /// Number of pixels in the buffer.
    pub open spec fn npx(self) -> int {
        self.width as int * self.height as int
    }

    /// Builds a buffer from raw bytes, accepting exactly a `width * height`
    /// grid of 4-byte pixels.
    pub fn new(width: u32, height: u32, data: Vec<u8>) -> (r: Option<PixelBuffer>)
        ensures
            match r {
                Some(b) => {
                    &&& b.wf()
                    &&& b.width == width
                    &&& b.height == height
                    &&& b.data@ == data@
                },
                None => data.len() != width as int * height as int * 4,
            },
    {
        let w: u128 = width as u128;
        let h: u128 = height as u128;
        proof {
            assert(w * h * 4 <= u128::MAX) by (nonlinear_arith)
                requires
                    w < 0x1_0000_0000,
                    h < 0x1_0000_0000,
            ;
        }
        if data.len() as u128 == w * h * 4 {
            Some(PixelBuffer { width, height, data })
        } else {
            None
        }
    }
}

/// Pixel `i` of `d` is degenerate grayscale: R, G and B hold one value and
/// alpha is fully opaque.
pub open spec fn gray_pixel(d: Seq<u8>, i: int) -> bool {
    &&& d[4 * i] == d[4 * i + 1]
    &&& d[4 * i + 1] == d[4 * i + 2]
    &&& d[4 * i + 3] == 255u8
}

/// The byte sequence of `d` after masking with the channel at `off`:
/// every pixel's R, G and B take the pixel's channel-`off` value, and
/// alpha becomes 255.
pub open spec fn masked(d: Seq<u8>, off: int) -> Seq<u8> {
    Seq::new(d.len(), |k: int| if k % 4 == 3 { 255u8 } else { d[(k / 4) * 4 + off] })
}

/// Pixel `i` of `new` is pixel `i` of `orig` masked with the channel at
/// `off`: R, G and B equal the original channel-`off` value, alpha is 255.
pub open spec fn masked_pixel(orig: Seq<u8>, new: Seq<u8>, off: int, i: int) -> bool {
    &&& new[4 * i] == orig[4 * i + off]
    &&& new[4 * i + 1] == orig[4 * i + off]
    &&& new[4 * i + 2] == orig[4 * i + off]
    &&& new[4 * i + 3] == 255u8
}

/// Reduces an RGBA buffer to a single channel: for every pixel the selected
/// channel is broadcast across R, G and B, and alpha is forced opaque.
/// The input is not mutated; a fresh buffer is returned.
pub fn apply_mask(image: &PixelBuffer, mask: &Mask) -> (r: PixelBuffer)
    requires
        image.wf(),
    ensures
        r.wf(),
        r.width == image.width,
        r.height == image.height,
        r.data@ == masked(image.data@, mask.offset_spec()),
        forall|i: int|
            0 <= i < image.npx() ==> #[trigger] masked_pixel(
                image.data@,
                r.data@,
                mask.offset_spec(),
                i,
            ),
{
    let channel = mask.offset();
    let len = image.data.len();
    let mut out: Vec<u8> = Vec::new();
    let mut i: usize = 0;
    while i < len
        invariant
            image.wf(),
            channel == mask.offset_spec(),
            len == image.data.len(),
            len % 4 == 0,
            i % 4 == 0,
            i <= len,
            out.len() == i,
            forall|k: int| 0 <= k < i ==> out@[k] == #[trigger] masked(image.data@, channel as int)[k],
        decreases len - i,
    {
        proof {
            lemma_pixel_base(i as int, len as int);
        }
        let ch = image.data[i + channel];
        out.push(ch);
        out.push(ch);
        out.push(ch);
        out.push(255);
        proof {
            lemma_pixel_bytes(image.data@, channel as int, i as int);
        }
        i = i + 4;
    }
    proof {
        assert(out@ =~= masked(image.data@, mask.offset_spec()));
        assert forall|j: int| 0 <= j < image.npx() implies #[trigger] masked_pixel(
            image.data@,
            out@,
            mask.offset_spec(),
            j,
        ) by {
            lemma_masked_pixel(image.data@, mask.offset_spec(), j);
        }
    }
    PixelBuffer { width: image.width, height: image.height, data: out }
}

/// For a pixel starting at byte `i` of a well-formed buffer, the pixel's
/// four bytes stay within bounds.
proof fn lemma_pixel_base(i: int, len: int)
    requires
        0 <= i < len,
        i % 4 == 0,
        len % 4 == 0,
    ensures
        i + 4 <= len,
        (i / 4) * 4 == i,
        i % 4 == 0,
        ((i + 1) / 4) * 4 == i && (i + 1) % 4 == 1,
        ((i + 2) / 4) * 4 == i && (i + 2) % 4 == 2,
        ((i + 3) / 4) * 4 == i && (i + 3) % 4 == 3,
{
    assert(i + 4 <= len) by (nonlinear_arith)
        requires
            0 <= i < len,
            i % 4 == 0,
            len % 4 == 0,
    ;
    assert((i / 4) * 4 == i && ((i + 1) / 4) * 4 == i && (i + 1) % 4 == 1 && ((i + 2) / 4) * 4 == i
        && (i + 2) % 4 == 2 && ((i + 3) / 4) * 4 == i && (i + 3) % 4 == 3) by (nonlinear_arith)
        requires
            i % 4 == 0,
            i >= 0,
    ;
}

/// The four bytes of the pixel starting at byte `i` of `masked(d, off)`.
proof fn lemma_pixel_bytes(d: Seq<u8>, off: int, i: int)
    requires
        0 <= i,
        i % 4 == 0,
        i + 4 <= d.len(),
        0 <= off < 4,
    ensures
        masked(d, off)[i] == d[i + off],
        masked(d, off)[i + 1] == d[i + off],
        masked(d, off)[i + 2] == d[i + off],
        masked(d, off)[i + 3] == 255u8,
{
    lemma_pixel_base(i, i + 4);
}

/// Pixel `i` of `masked(d, off)` relates to pixel `i` of `d` as
/// `masked_pixel` states.
proof fn lemma_masked_pixel(d: Seq<u8>, off: int, i: int)
    requires
        0 <= i,
        4 * i + 4 <= d.len(),
        0 <= off < 4,
    ensures
        masked_pixel(d, masked(d, off), off, i),
{
    lemma_pixel_base(4 * i, 4 * i + 4);
    lemma_pixel_bytes(d, off, 4 * i);
}

/// Masking is idempotent for the R, G and B selectors: masking a buffer
/// twice with the same non-alpha channel gives the same bytes as masking it
/// once. (With the alpha selector a second application reads the forced
/// alpha of 255 instead of the original channel, so the law is stated for
/// the color channels only.)
pub proof fn lemma_mask_idempotent(d: Seq<u8>, mask: Mask)
    requires
        mask != Mask::A,
        d.len() % 4 == 0,
    ensures
        masked(masked(d, mask.offset_spec()), mask.offset_spec()) == masked(
            d,
            mask.offset_spec(),
        ),
{
    let off = mask.offset_spec();
    let m1 = masked(d, off);
    let m2 = masked(m1, off);
    assert forall|k: int| 0 <= k < d.len() implies m2[k] == m1[k] by {
        if k % 4 != 3 {
            let base = (k / 4) * 4;
            assert(0 <= k / 4 && base <= k < base + 4 && base % 4 == 0) by (nonlinear_arith)
                requires
                    0 <= k,
                    base == (k / 4) * 4,
            ;
            lemma_pixel_base(base, d.len() as int);
            assert(m2[k] == m1[base + off]);
            assert(m1[base + off] == d[base + off]);
            assert(m1[k] == d[base + off]);
        }
    }
    assert(m2 =~= m1);
}

} // verus!
