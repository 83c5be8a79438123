//! The RGB image that the PNG encoder consumes, built from a rendered frame buffer.

use image::{ImageBuffer, RgbImage};
use vstd::prelude::*;

verus! {

/// An RGB image ready for the PNG encoder. Verus sees only what `rgb_samples`
/// and `rgb_dimensions` say of it.
#[verifier::external_body]
pub struct RgbFrame {
    pub image: RgbImage,
}

/// The channel samples that an RGB image holds, row-major, three per pixel.
pub uninterp spec fn rgb_samples(img: RgbFrame) -> Seq<u8>;

/// The width and height of an RGB image, in pixels.
pub uninterp spec fn rgb_dimensions(img: RgbFrame) -> (u32, u32);

/// The number of channel samples in a `width` by `height` RGB frame.
pub open spec fn frame_samples(width: nat, height: nat) -> nat {
    3 * width * height
}

/// Relies on `image::ImageBuffer::from_raw`: it returns `Some` exactly when `buf`
/// holds at least three samples per pixel (counted with checked multiplication, so an
/// overflowing count is refused), and the image then keeps `buf` as its samples and
/// `width` and `height` as its dimensions.
#[verifier::external_body]
fn rgb_from_raw(width: u32, height: u32, buf: Vec<u8>) -> (r: Option<RgbFrame>)
    ensures
        r.is_some() <==> frame_samples(width as nat, height as nat) <= buf@.len(),
        r matches Some(img) ==> rgb_samples(img) == buf@ && rgb_dimensions(img) == (width, height),
{
    match ImageBuffer::from_raw(width, height, buf) {
        Some(image) => Some(RgbFrame { image }),
        None => None,
    }
}

/// The `width` by `height` RGB image whose pixels are the first `3 * width * height`
/// bytes of the row-major frame buffer `image`; `None` when `image` is shorter than that.
pub fn rgb_image(image: &Vec<u8>, width: u32, height: u32) -> (r: Option<RgbFrame>)
    ensures
        r.is_some() <==> frame_samples(width as nat, height as nat) <= image@.len(),
        r matches Some(img) ==> {
            &&& rgb_samples(img) == image@.subrange(0, frame_samples(width as nat, height as nat) as int)
            &&& rgb_dimensions(img) == (width, height)
        },
{
    proof {
        assert(3 * (width as u128) * (height as u128) <= 3 * 0xffff_ffffu128 * 0xffff_ffffu128)
            by (nonlinear_arith);
    }
    let wide: u128 = 3 * (width as u128) * (height as u128);
    proof {
        assert(wide == frame_samples(width as nat, height as nat));
    }
    if wide > image.len() as u128 {
        return None;
    }
    let n: usize = wide as usize;
    let mut buf: Vec<u8> = Vec::with_capacity(n);
    let mut i: usize = 0;
    while i < n
        invariant
            i <= n,
            n <= image@.len(),
            buf@ == image@.subrange(0, i as int),
        decreases n - i,
    {
        buf.push(image[i]);
        i = i + 1;
        proof {
            assert(buf@ =~= image@.subrange(0, i as int));
        }
    }
    rgb_from_raw(width, height, buf)
}

} // verus!
