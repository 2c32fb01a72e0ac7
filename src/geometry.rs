//! Areas of cells, alignment, and where an image is placed inside an area.

use vstd::prelude::*;

verus! {

/// A rectangle of cells: its top-left corner and its size.
#[derive(Clone, Copy, Debug, PartialEq, Eq, Structural)]
pub struct Rect {
    pub x: u16,
    pub y: u16,
    pub width: u16,
    pub height: u16,
}

impl Rect {
    pub fn new(x: u16, y: u16, width: u16, height: u16) -> (r: Rect)
        ensures
            r == (Rect { x, y, width, height }),
    {
        Rect { x, y, width, height }
    }

    /// An area with no cells in it.
    pub open spec fn is_empty_spec(&self) -> bool {
        self.width == 0 || self.height == 0
    }

    pub fn is_empty(&self) -> (r: bool)
        ensures
            r == self.is_empty_spec(),
    {
        self.width == 0 || self.height == 0
    }

    /// Whether the cell at (x, y) lies inside this rectangle.
    pub open spec fn holds(&self, x: int, y: int) -> bool {
        self.x <= x < self.x + self.width && self.y <= y < self.y + self.height
    }

    /// Whether every cell of `r` lies inside this rectangle.
    pub open spec fn contains(&self, r: Rect) -> bool {
        self.x <= r.x && r.x + r.width <= self.x + self.width && self.y <= r.y && r.y
            + r.height <= self.y + self.height
    }

    /// Pixel rows of the area's canvas: each cell row holds two.
    pub open spec fn canvas_height(&self) -> int {
        2 * self.height
    }
}

/// Horizontal placement of an image narrower than its area.
#[derive(Clone, Copy, Debug, PartialEq, Eq, Structural)]
pub enum Alignment {
    Left,
    Center,
    Right,
}

/// `max(lo, min(hi, v))`: `v` brought into `[lo, hi]`, with `lo` winning when
/// the range is empty.
pub open spec fn clamp(v: int, lo: int, hi: int) -> int {
    let m = if v < hi {
        v
    } else {
        hi
    };
    if m < lo {
        lo
    } else {
        m
    }
}

/// The column of the canvas where the image's first column goes.
pub open spec fn offset_x(alignment: Alignment, area_width: int, image_width: int) -> int {
    let raw = match alignment {
        Alignment::Left => 0,
        Alignment::Center => (area_width - image_width) / 2,
        Alignment::Right => area_width - image_width,
    };
    clamp(raw, 0, area_width - 1)
}

/// The row of the canvas where the image's first row goes: always centred.
pub open spec fn offset_y(area_height: int, image_height: int) -> int {
    clamp((2 * area_height - image_height) / 2, 0, 2 * area_height - 1)
}

/// Whether an image is too large for the canvas of an area.
pub open spec fn needs_scaling(area: Rect, image_width: int, image_height: int) -> bool {
    image_width > area.width || image_height > area.canvas_height()
}

pub fn horizontal_offset(alignment: Alignment, area_width: u16, image_width: u32) -> (ox: u16)
    ensures
        ox == offset_x(alignment, area_width as int, image_width as int),
{
    if area_width == 0 {
        return 0;
    }
    let aw = area_width as u32;
    let raw: u32 = if image_width >= aw {
        0
    } else {
        match alignment {
            Alignment::Left => 0,
            Alignment::Center => (aw - image_width) / 2,
            Alignment::Right => aw - image_width,
        }
    };
    if raw > aw - 1 {
        (aw - 1) as u16
    } else {
        raw as u16
    }
}

pub fn vertical_offset(area_height: u16, image_height: u32) -> (oy: u32)
    ensures
        oy == clamp((2 * area_height - image_height) / 2, 0, 2 * area_height - 1),
{
    if area_height == 0 {
        return 0;
    }
    let ch = 2 * (area_height as u32);
    let raw: u32 = if image_height >= ch {
        0
    } else {
        (ch - image_height) / 2
    };
    if raw > ch - 1 {
        ch - 1
    } else {
        raw
    }
}

pub fn scaling_needed(area: Rect, image_width: u32, image_height: u32) -> (r: bool)
    ensures
        r == needs_scaling(area, image_width as int, image_height as int),
{
    image_width > area.width as u32 || image_height > 2 * (area.height as u32)
}

/// For an image at most as wide as its area, the three alignments put it at
/// the left edge, in the middle (rounding down) and at the right edge.
pub proof fn lemma_alignment_offsets(area_width: int, image_width: int)
    requires
        0 < image_width <= area_width,
    ensures
        offset_x(Alignment::Left, area_width, image_width) == 0,
        offset_x(Alignment::Center, area_width, image_width) == (area_width - image_width) / 2,
        offset_x(Alignment::Right, area_width, image_width) == area_width - image_width,
{
}

} // verus!
