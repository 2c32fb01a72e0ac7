//! RGBA pixel buffers and their down-scaling to an area's canvas.

use vstd::prelude::*;
use crate::geometry::{Rect, needs_scaling, scaling_needed};

verus! {

/// One RGBA sample, each channel in 0..=255.
#[derive(Clone, Copy, Debug, PartialEq, Eq, Structural)]
pub struct Rgba {
    pub r: u8,
    pub g: u8,
    pub b: u8,
    pub a: u8,
}

/// A grid of `width × height` RGBA samples, stored row by row, four bytes each.
#[derive(Clone, Debug)]
pub struct PixelBuffer {
    pub width: u32,
    pub height: u32,
    pub data: Vec<u8>,
}

/// What a pixel buffer holds, as mathematical values.
pub struct Raster {
    pub width: nat,
    pub height: nat,
    pub data: Seq<u8>,
}

impl Raster {
    pub open spec fn wf(&self) -> bool {
        self.data.len() == self.width * self.height * 4
    }

    pub open spec fn is_empty(&self) -> bool {
        self.width == 0 || self.height == 0
    }

    /// The sample at column `x`, row `y`.
    pub open spec fn pixel(&self, x: int, y: int) -> Rgba {
        let i = (y * self.width + x) * 4;
        Rgba { r: self.data[i], g: self.data[i + 1], b: self.data[i + 2], a: self.data[i + 3] }
    }
}

impl View for PixelBuffer {
    type V = Raster;

    open spec fn view(&self) -> Raster {
        Raster { width: self.width as nat, height: self.height as nat, data: self.data@ }
    }
}

/// Every pixel of `out` is, channel for channel, some pixel of `src`: nothing
/// is blended.
pub open spec fn copies_pixels(out: Raster, src: Raster) -> bool {
    forall|x: int, y: int|
        #![trigger out.pixel(x, y)]
        0 <= x < out.width && 0 <= y < out.height ==> exists|sx: int, sy: int|
            0 <= sx < src.width && 0 <= sy < src.height && out.pixel(x, y)
                == #[trigger] src.pixel(sx, sy)
}

/// Where each pixel of `out` is a pixel of `src` and all of `src` is `px`, all
/// of `out` is `px`.
pub proof fn lemma_uniform_copy(out: Raster, src: Raster, px: Rgba)
    requires
        copies_pixels(out, src),
        forall|x: int, y: int| 0 <= x < src.width && 0 <= y < src.height ==> #[trigger] src.pixel(x, y) == px,
    ensures
        forall|x: int, y: int| 0 <= x < out.width && 0 <= y < out.height ==> #[trigger] out.pixel(x, y) == px,
{
    assert forall|x: int, y: int| 0 <= x < out.width && 0 <= y < out.height implies #[trigger] out.pixel(x, y) == px by {
        let (sx, sy) = choose|sx: int, sy: int|
            0 <= sx < src.width && 0 <= sy < src.height && out.pixel(x, y) == #[trigger] src.pixel(
                sx,
                sy,
            );
    }
}

/// What nearest-neighbour resampling of `data` (a `width × height` RGBA raster)
/// to `new_width × new_height` yields.
pub uninterp spec fn nearest_resized(
    data: Seq<u8>,
    width: nat,
    height: nat,
    new_width: nat,
    new_height: nat,
) -> Seq<u8>;

/// Relies on image::imageops::resize with FilterType::Nearest: it returns a
/// fresh `new_width × new_height` buffer (ImageBuffer::new), filled from the
/// source alone; each pass weighs a one-pixel window with the box kernel's
/// weight 1, so each output pixel is a copy of one source pixel; it indexes the source, so both source sides must be positive,
/// and each intermediate buffer must have a length that fits in usize.
#[verifier::external_body]
fn resize_nearest(img: &PixelBuffer, new_width: u32, new_height: u32) -> (r: PixelBuffer)
    requires
        img@.wf(),
        !img@.is_empty(),
        img.width * new_height * 4 <= usize::MAX,
        new_width * new_height * 4 <= usize::MAX,
    ensures
        r.width == new_width,
        r.height == new_height,
        r@.wf(),
        copies_pixels(r@, img@),
        r.data@ == nearest_resized(
            img.data@,
            img.width as nat,
            img.height as nat,
            new_width as nat,
            new_height as nat,
        ),
{
    let src = image::RgbaImage::from_raw(img.width, img.height, img.data.clone()).unwrap();
    let out = image::imageops::resize(&src, new_width, new_height, image::imageops::FilterType::Nearest);
    PixelBuffer { width: out.width(), height: out.height(), data: out.into_raw() }
}

/// Whether the buffers that scaling an image to the canvas of `area` goes
/// through have lengths that fit in usize.
pub open spec fn scaling_fits_memory(image_width: int, area: Rect) -> bool {
    image_width * area.canvas_height() * 4 <= usize::MAX && area.width
        * area.canvas_height() * 4 <= usize::MAX
}

impl PixelBuffer {
    /// Wraps raw RGBA bytes; `None` unless there are exactly four per pixel.
    pub fn from_raw(width: u32, height: u32, data: Vec<u8>) -> (r: Option<PixelBuffer>)
        ensures
            r is Some <==> data@.len() == width * height * 4,
            r matches Some(p) ==> p@ == (Raster {
                width: width as nat,
                height: height as nat,
                data: data@,
            }),
    {
        proof {
            assert((width as int) * (height as int) <= 0xffff_ffff * 0xffff_ffff) by (nonlinear_arith)
                requires
                    width <= 0xffff_ffff,
                    height <= 0xffff_ffff,
            ;
        }
        if (width as u128) * (height as u128) * 4 != data.len() as u128 {
            None
        } else {
            Some(PixelBuffer { width, height, data })
        }
    }

    pub fn width(&self) -> (r: u32)
        ensures
            r == self.width,
    {
        self.width
    }

    pub fn height(&self) -> (r: u32)
        ensures
            r == self.height,
    {
        self.height
    }

    /// The sample at column `x`, row `y`.
    pub fn get_pixel(&self, x: u32, y: u32) -> (p: Rgba)
        requires
            self@.wf(),
            x < self.width,
            y < self.height,
        ensures
            p == self@.pixel(x as int, y as int),
    {
        let len = self.data.len();
        proof {
            let w = self.width as int;
            let h = self.height as int;
            assert(0 <= y * w && (y * w + x) * 4 + 4 <= w * h * 4) by (nonlinear_arith)
                requires
                    0 <= x < w,
                    0 <= y < h,
            ;
            assert(self.data@.len() == w * h * 4);
            assert(len <= usize::MAX);
        }
        let i: usize = ((y as usize) * (self.width as usize) + (x as usize)) * 4;
        Rgba { r: self.data[i], g: self.data[i + 1], b: self.data[i + 2], a: self.data[i + 3] }
    }
}

/// The image to draw into `area`: `None` where `img` fits the area's canvas and
/// is drawn as it is, else its nearest-neighbour resampling to exactly the
/// canvas, `area.width × 2·area.height` pixels.
pub fn fit_to_area(img: &PixelBuffer, area: Rect) -> (r: Option<PixelBuffer>)
    requires
        img@.wf(),
        !img@.is_empty(),
        scaling_fits_memory(img.width as int, area),
    ensures
        r is None <==> !needs_scaling(area, img.width as int, img.height as int),
        r matches Some(s) ==> copies_pixels(s@, img@),
        r matches Some(s) ==> s@.wf() && s.width == area.width && s.height
            == area.canvas_height() && s.data@ == nearest_resized(
            img.data@,
            img.width as nat,
            img.height as nat,
            area.width as nat,
            area.canvas_height() as nat,
        ),
{
    if scaling_needed(area, img.width, img.height) {
        Some(resize_nearest(img, area.width as u32, 2 * (area.height as u32)))
    } else {
        None
    }
}

} // verus!
