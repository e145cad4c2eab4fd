//! Grayscale images and the raw-frame conversions around them.
//!
//! A captured frame is a bottom-up RGBA byte buffer; the recognizer works on
//! top-down grayscale images. This module holds the image type and the two
//! conversions: luma grayscaling and vertical row flipping.

use vstd::prelude::*;

use crate::errors::ControllerError;

verus! {

/// A grayscale raster image: one byte per pixel, row-major, top-left
/// origin.
pub struct GrayImage {
    pub width: usize,
    pub height: usize,
    pub pixels: Vec<u8>,
}

impl GrayImage {
    /// The pixel buffer holds exactly one byte per pixel.
    pub open spec fn wf(&self) -> bool {
        self.pixels@.len() == self.width * self.height
    }

    pub open spec fn area(&self) -> int {
        self.width * self.height
    }

    /// The pixel at column `x`, row `y`.
    pub open spec fn pix(&self, x: int, y: int) -> u8 {
        self.pixels@[y * self.width + x]
    }

    /// Build an image from a pixel buffer, rejecting a buffer whose length
    /// does not match the geometry.
    pub fn new(width: usize, height: usize, pixels: Vec<u8>) -> (r: Result<
        GrayImage,
        ControllerError,
    >)
        ensures
            match r {
                Ok(img) => {
                    &&& img.wf()
                    &&& img.width == width
                    &&& img.height == height
                    &&& img.pixels == pixels
                    &&& pixels@.len() == width * height
                },
                Err(e) => {
                    &&& e == ControllerError::ImageLoadFailed
                    &&& pixels@.len() != width * height
                },
            },
    {
        let plen = pixels.len();
        let expected = width.checked_mul(height);
        match expected {
            Some(n) => {
                if n == plen {
                    proof {
                        assert(n == width * height);
                    }
                    Ok(GrayImage { width, height, pixels })
                } else {
                    Err(ControllerError::ImageLoadFailed)
                }
            },
            None => Err(ControllerError::ImageLoadFailed),
        }
    }
}

/// The integer luma of one RGBA pixel, by the common broadcast weighting.
pub open spec fn luma_spec(r: u8, g: u8, b: u8) -> int {
    (299 * r + 587 * g + 114 * b) / 1000
}

/// Collapse an RGBA frame to grayscale, pixel for pixel.
pub fn rgba_to_gray(frame: &Vec<u8>, width: usize, height: usize) -> (r: GrayImage)
    requires
        frame@.len() == width * height * 4,
    ensures
        r.wf(),
        r.width == width,
        r.height == height,
        forall|i: int|
            0 <= i < width * height ==> r.pixels@[i] == luma_spec(
                frame@[4 * i],
                frame@[4 * i + 1],
                frame@[4 * i + 2],
            ),
{
    let flen = frame.len();
    let n = flen / 4;
    proof {
        assert(width * height * 4 / 4 == width * height) by (nonlinear_arith);
    }
    let mut pixels: Vec<u8> = Vec::new();
    let mut i: usize = 0;
    while i < n
        invariant
            i <= n,
            n == width * height,
            frame@.len() == 4 * n,
            frame@.len() <= usize::MAX,
            pixels@.len() == i,
            forall|k: int|
                0 <= k < i ==> pixels@[k] == luma_spec(
                    frame@[4 * k],
                    frame@[4 * k + 1],
                    frame@[4 * k + 2],
                ),
        decreases n - i,
    {
        let red = frame[4 * i] as u32;
        let green = frame[4 * i + 1] as u32;
        let blue = frame[4 * i + 2] as u32;
        let luma = (299 * red + 587 * green + 114 * blue) / 1000;
        pixels.push(luma as u8);
        i = i + 1;
    }
    GrayImage { width, height, pixels }
}

/// Where a flipped buffer's byte at flat index `k` comes from in the
/// original: the same column of the mirrored row.
pub open spec fn flip_src(stride: int, rows: int, k: int) -> int {
    (rows - 1 - k / stride) * stride + k % stride
}

/// Reverse the row order of a raster buffer: the capture source hands rows
/// bottom-up, and image export wants the conventional top-left origin.
/// `stride` is the byte width of one row.
pub fn flip_vertical(data: &Vec<u8>, stride: usize, rows: usize) -> (r: Vec<u8>)
    requires
        data@.len() == stride * rows,
    ensures
        r@.len() == data@.len(),
        forall|k: int| 0 <= k < r@.len() ==> #[trigger] r@[k] == data@[flip_src(
            stride as int,
            rows as int,
            k,
        )],
{
    proof {
        assert(data@.len() == data.len());
    }
    let mut out: Vec<u8> = Vec::new();
    let mut y: usize = 0;
    while y < rows
        invariant
            y <= rows,
            data@.len() == stride * rows,
            data@.len() <= usize::MAX,
            out@.len() == y * stride,
            forall|k: int| 0 <= k < out@.len() ==> #[trigger] out@[k] == data@[flip_src(
                stride as int,
                rows as int,
                k,
            )],
        decreases rows - y,
    {
        let src_row = rows - 1 - y;
        proof {
            assert((src_row + 1) * stride <= rows * stride) by (nonlinear_arith)
                requires
                    src_row + 1 <= rows,
                    stride >= 0,
            ;
            assert(src_row * stride + stride == (src_row + 1) * stride) by (nonlinear_arith);
            assert(y * stride + stride == (y + 1) * stride) by (nonlinear_arith);
            assert((y + 1) * stride <= rows * stride) by (nonlinear_arith)
                requires
                    y + 1 <= rows,
                    stride >= 0,
            ;
        }
        let base = src_row * stride;
        let mut x: usize = 0;
        while x < stride
            invariant
                x <= stride,
                y < rows,
                base == (rows - 1 - y) * stride,
                base + stride <= data@.len(),
                data@.len() == stride * rows,
                data@.len() <= usize::MAX,
                out@.len() == y * stride + x,
                forall|k: int| 0 <= k < out@.len() ==> #[trigger] out@[k] == data@[flip_src(
                    stride as int,
                    rows as int,
                    k,
                )],
            decreases stride - x,
        {
            let ghost k0 = out@.len() as int;
            out.push(data[base + x]);
            proof {
                vstd::arithmetic::div_mod::lemma_fundamental_div_mod_converse(
                    k0,
                    stride as int,
                    y as int,
                    x as int,
                );
                assert(flip_src(stride as int, rows as int, k0) == base + x);
            }
            x = x + 1;
        }
        y = y + 1;
    }
    proof {
        assert(rows * stride == stride * rows) by (nonlinear_arith);
    }
    out
}

} // verus!
