//! Textures: immutable, shared 2-D pixel buffers with 8-bit RGBA channels.
//!
//! A texture is produced once by the loading stage and then only read; the
//! pixel data sits behind a reference-counted pointer, so machines running in
//! parallel share one buffer instead of copying it.

use std::sync::Arc;

use vstd::prelude::*;

use crate::data::Color;

verus! {

/// An immutable pixel buffer with known width and height.
///
/// Pixels are stored row by row: the pixel at `(x, y)` is entry
/// `y * width + x` of the buffer.
pub struct Texture {
    width: u32,
    height: u32,
    pixels: Arc<Vec<Color>>,
}

impl Texture {
    #[verifier::type_invariant]
    spec fn wf(self) -> bool {
        &&& self.width >= 1
        &&& self.height >= 1
        &&& self.pixels@.len() == self.width * self.height
    }

    /// The width of the texture, in pixels.
    pub closed spec fn spec_width(self) -> u32 {
        self.width
    }

    /// The height of the texture, in pixels.
    pub closed spec fn spec_height(self) -> u32 {
        self.height
    }

    /// The pixel at `(x, y)`, for in-range coordinates.
    pub closed spec fn spec_pixel(self, x: int, y: int) -> Color {
        self.pixels@[y * self.width + x]
    }

    /// The pixel at wrapped coordinates `(x mod width, y mod height)`: how the
    /// machine samples a texture, never out of bounds.
    pub open spec fn spec_sample(self, x: u32, y: u32) -> Color {
        self.spec_pixel((x % self.spec_width()) as int, (y % self.spec_height()) as int)
    }

    /// Builds a texture from its dimensions and its pixels, given row by row.
    /// Returns `None` when either dimension is zero or the buffer does not
    /// hold exactly `width * height` pixels.
    pub fn new(width: u32, height: u32, pixels: Vec<Color>) -> (r: Option<Texture>)
        ensures
            match r {
                Some(t) => {
                    &&& width >= 1
                    &&& height >= 1
                    &&& pixels@.len() == width * height
                    &&& t.spec_width() == width
                    &&& t.spec_height() == height
                    &&& forall|x: int, y: int|
                        0 <= x < width && 0 <= y < height ==> t.spec_pixel(x, y) == pixels@[y
                            * width + x]
                },
                None => width == 0 || height == 0 || pixels@.len() != width * height,
            },
    {
        if width == 0 || height == 0 {
            return None;
        }
        proof {
            assert((width as int) * (height as int) < 0x1_0000_0000_0000_0000) by (nonlinear_arith)
                requires
                    width < 0x1_0000_0000,
                    height < 0x1_0000_0000,
            ;
        }
        let expected: u64 = (width as u64) * (height as u64);
        if (pixels.len() as u64) != expected {
            return None;
        }
        Some(Texture { width, height, pixels: Arc::new(pixels) })
    }

    /// The width of the texture, in pixels.
    pub fn width(&self) -> (w: u32)
        ensures
            w == self.spec_width(),
    {
        self.width
    }

    /// The height of the texture, in pixels.
    pub fn height(&self) -> (h: u32)
        ensures
            h == self.spec_height(),
    {
        self.height
    }

    /// Samples the pixel at `(x mod width, y mod height)`.
    pub fn sample(&self, x: u32, y: u32) -> (c: Color)
        ensures
            c == self.spec_sample(x, y),
    {
        proof {
            use_type_invariant(self);
        }
        let xm = x % self.width;
        let ym = y % self.height;
        // The buffer's length bounds the index below usize::MAX.
        let _len: usize = self.pixels.len();
        proof {
            assert((ym as int) * (self.width as int) + (xm as int) < (self.width as int) * (
            self.height as int)) by (nonlinear_arith)
                requires
                    xm < self.width,
                    ym < self.height,
            ;
        }
        let idx: u64 = (ym as u64) * (self.width as u64) + (xm as u64);
        self.pixels[idx as usize]
    }
}

impl Clone for Texture {
    fn clone(&self) -> (r: Texture)
        ensures
            r == *self,
    {
        proof {
            use_type_invariant(self);
        }
        Texture { width: self.width, height: self.height, pixels: share_pixels(&self.pixels) }
    }
}

/// Relies on `Arc::clone`: the returned pointer shares the same allocation,
/// so it carries the very same buffer.
#[verifier::external_body]
fn share_pixels(p: &Arc<Vec<Color>>) -> (r: Arc<Vec<Color>>)
    ensures
        r == *p,
{
    Arc::clone(p)
}

} // verus!
