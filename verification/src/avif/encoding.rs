//! Raw image bytes as the pixels that the encoder takes.

use vstd::prelude::*;

verus! {

/// One pixel: red, green and blue, eight bits each.
#[derive(Debug, Clone, Copy, PartialEq, Eq)]
pub struct Rgb {
    /// Red.
    pub r: u8,
    /// Green.
    pub g: u8,
    /// Blue.
    pub b: u8,
}

/// The pixels of raw RGB bytes, three bytes a pixel, row by row. One or two
/// bytes that are left over at the end make no pixel.
pub open spec fn spec_rgb_pixels(image: Seq<u8>) -> Seq<Rgb> {
    Seq::new(
        (image.len() / 3) as nat,
        |i: int| Rgb { r: image[3 * i], g: image[3 * i + 1], b: image[3 * i + 2] },
    )
}

/// The pixels of raw RGB bytes, three bytes a pixel, row by row. One or two
/// bytes that are left over at the end make no pixel.
pub fn rgb_pixels(image: &[u8]) -> (pixels: Vec<Rgb>)
    ensures
        pixels@ == spec_rgb_pixels(image@),
        pixels@.len() == image@.len() / 3,
{
    let len: usize = image.len();
    let count: usize = len / 3;
    let mut pixels: Vec<Rgb> = Vec::new();
    let mut i: usize = 0;
    while i < count
        invariant
            len == image@.len(),
            count == len / 3,
            i <= count,
            pixels@.len() == i,
            forall|k: int| 0 <= k < i ==> #[trigger] pixels@[k] == spec_rgb_pixels(image@)[k],
        decreases count - i,
    {
        let at: usize = 3 * i;
        pixels.push(Rgb { r: image[at], g: image[at + 1], b: image[at + 2] });
        i += 1;
    }
    pixels
}

} // verus!
