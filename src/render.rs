//! Compositing pixels over a backdrop, choosing glyphs and colours, and
//! drawing an image into an area of a cell buffer.

use vstd::prelude::*;
use crate::cells::{Cell, CellBuffer, Color, Style};
use crate::geometry::{
    Alignment,
    Rect,
    horizontal_offset,
    needs_scaling,
    offset_x,
    offset_y,
    vertical_offset,
};
use crate::pixels::{
    PixelBuffer,
    Raster,
    Rgba,
    copies_pixels,
    fit_to_area,
    lemma_uniform_copy,
    nearest_resized,
    scaling_fits_memory,
};

verus! {

/// Density ramp, lightest first.
pub const BLOCK_LIGHT: char = '\u{2591}';

pub const BLOCK_MEDIUM: char = '\u{2592}';

pub const BLOCK_DARK: char = '\u{2593}';

pub const BLOCK_FULL: char = '\u{2588}';

/// Fills the upper half of a cell in the foreground colour.
pub const BLOCK_UPPER_HALF: char = '\u{2580}';

/// How pixels become cells.
#[derive(Clone, Copy, Debug, PartialEq, Eq, Structural)]
pub enum ColorMode {
    /// One density glyph per cell, no colour.
    Luma,
    /// Two pixel rows per cell: the upper as foreground of a half block, the
    /// lower as background.
    Rgb,
}

/// An RGB colour with channels in 0..=255.
#[derive(Clone, Copy, Debug, PartialEq, Eq, Structural)]
pub struct Backdrop {
    pub r: u8,
    pub g: u8,
    pub b: u8,
}

/// The colour transparent pixels are composited against: an explicit RGB
/// background as it is, white as white, anything else as black.
pub open spec fn backdrop_of(style: Style) -> Backdrop {
    match style.bg {
        Some(Color::White) => Backdrop { r: 255, g: 255, b: 255 },
        Some(Color::Rgb(r, g, b)) => Backdrop { r, g, b },
        _ => Backdrop { r: 0, g: 0, b: 0 },
    }
}

pub fn backdrop(style: Style) -> (r: Backdrop)
    ensures
        r == backdrop_of(style),
{
    match style.bg {
        Some(Color::White) => Backdrop { r: 255, g: 255, b: 255 },
        Some(Color::Rgb(r, g, b)) => Backdrop { r, g, b },
        _ => Backdrop { r: 0, g: 0, b: 0 },
    }
}

/// A composited colour, each channel in units of 1/65025 (0 is none of the
/// channel, 65025 all of it): `pixel·α/255² + backdrop·(1 − α/255)/255`,
/// kept exact. Computing the same formula in `f32` can land on the other side
/// of a rounding boundary, so a density level or an RGB channel may then
/// differ by one from a float implementation's.
pub struct Blend {
    pub r: int,
    pub g: int,
    pub b: int,
}

/// One channel of `pixel` with alpha `alpha` over `backdrop`, in 1/65025 units.
pub open spec fn blend_channel(pixel: int, alpha: int, backdrop: int) -> int {
    pixel * alpha + backdrop * (255 - alpha)
}

pub open spec fn composite(p: Rgba, back: Backdrop) -> Blend {
    Blend {
        r: blend_channel(p.r as int, p.a as int, back.r as int),
        g: blend_channel(p.g as int, p.a as int, back.g as int),
        b: blend_channel(p.b as int, p.a as int, back.b as int),
    }
}

/// `⌊5 · (0.3 r + 0.59 g + 0.11 b)⌋` with the channels as fractions of one.
pub open spec fn luma_level(c: Blend) -> int {
    (30 * c.r + 59 * c.g + 11 * c.b) / 1300500
}

/// A channel on the 0..=255 scale, rounded down.
pub open spec fn channel_byte(v: int) -> u8 {
    (v / 255) as u8
}

pub open spec fn blend_color(c: Blend) -> Color {
    Color::Rgb(channel_byte(c.r), channel_byte(c.g), channel_byte(c.b))
}

/// Glyph of a non-zero density level.
pub open spec fn shade(level: int) -> char {
    if level == 1 {
        BLOCK_LIGHT
    } else if level == 2 {
        BLOCK_MEDIUM
    } else if level == 3 {
        BLOCK_DARK
    } else {
        BLOCK_FULL
    }
}

/// The cell once the colour `c` of canvas row `y` is drawn into it.
pub open spec fn painted(cell: Cell, c: Blend, mode: ColorMode, y: int) -> Cell {
    match mode {
        ColorMode::Luma => {
            let level = luma_level(c);
            if level == 0 {
                cell
            } else {
                Cell { symbol: shade(level), ..cell }
            }
        },
        ColorMode::Rgb => {
            if y % 2 == 0 {
                Cell { symbol: BLOCK_UPPER_HALF, fg: blend_color(c), ..cell }
            } else {
                Cell { bg: blend_color(c), ..cell }
            }
        },
    }
}

/// The cell once canvas pixel (x, y) is drawn into it, the image's first pixel
/// standing at (ox, oy); pixels off the image leave it as it is.
pub open spec fn canvas_step(
    cell: Cell,
    img: Raster,
    ox: int,
    oy: int,
    x: int,
    y: int,
    mode: ColorMode,
    back: Backdrop,
) -> Cell {
    if ox <= x < ox + img.width && oy <= y < oy + img.height {
        painted(cell, composite(img.pixel(x - ox, y - oy), back), mode, y)
    } else {
        cell
    }
}

/// The cell at column `cx`, row `cr` of an area once both canvas rows that it
/// covers, `2·cr` then `2·cr + 1`, are drawn into it.
pub open spec fn cell_drawn(
    cell: Cell,
    img: Raster,
    ox: int,
    oy: int,
    cx: int,
    cr: int,
    mode: ColorMode,
    back: Backdrop,
) -> Cell {
    canvas_step(
        canvas_step(cell, img, ox, oy, cx, 2 * cr, mode, back),
        img,
        ox,
        oy,
        cx,
        2 * cr + 1,
        mode,
        back,
    )
}

fn blend_channel_exec(pixel: u8, alpha: u8, back: u8) -> (r: u32)
    ensures
        r == blend_channel(pixel as int, alpha as int, back as int),
        r <= 65025,
{
    proof {
        let p = pixel as int;
        let a = alpha as int;
        let b = back as int;
        assert(0 <= p * a + b * (255 - a) <= 65025) by (nonlinear_arith)
            requires
                0 <= p <= 255,
                0 <= a <= 255,
                0 <= b <= 255,
        ;
    }
    (pixel as u32) * (alpha as u32) + (back as u32) * (255 - alpha as u32)
}

/// Composites `p` over `back`; each channel in 1/65025 units.
pub fn composite_pixel(p: Rgba, back: Backdrop) -> (c: (u32, u32, u32))
    ensures
        c.0 == composite(p, back).r,
        c.1 == composite(p, back).g,
        c.2 == composite(p, back).b,
        c.0 <= 65025,
        c.1 <= 65025,
        c.2 <= 65025,
{
    (
        blend_channel_exec(p.r, p.a, back.r),
        blend_channel_exec(p.g, p.a, back.g),
        blend_channel_exec(p.b, p.a, back.b),
    )
}

/// Draws colour `c` (channels in 1/65025 units) of canvas row `y` into `cell`.
pub fn paint(cell: Cell, c: (u32, u32, u32), mode: ColorMode, y: u32) -> (r: Cell)
    requires
        c.0 <= 65025,
        c.1 <= 65025,
        c.2 <= 65025,
    ensures
        r == painted(cell, Blend { r: c.0 as int, g: c.1 as int, b: c.2 as int }, mode, y as int),
{
    match mode {
        ColorMode::Luma => {
            let level = (30 * c.0 + 59 * c.1 + 11 * c.2) / 1300500;
            if level == 0 {
                cell
            } else {
                let symbol = if level == 1 {
                    BLOCK_LIGHT
                } else if level == 2 {
                    BLOCK_MEDIUM
                } else if level == 3 {
                    BLOCK_DARK
                } else {
                    BLOCK_FULL
                };
                Cell { symbol, ..cell }
            }
        },
        ColorMode::Rgb => {
            let color = Color::Rgb((c.0 / 255) as u8, (c.1 / 255) as u8, (c.2 / 255) as u8);
            if y % 2 == 0 {
                Cell { symbol: BLOCK_UPPER_HALF, fg: color, ..cell }
            } else {
                Cell { bg: color, ..cell }
            }
        },
    }
}

fn canvas_step_exec(
    cell: Cell,
    img: &PixelBuffer,
    ox: u32,
    oy: u32,
    x: u32,
    y: u32,
    mode: ColorMode,
    back: Backdrop,
) -> (r: Cell)
    requires
        img@.wf(),
    ensures
        r == canvas_step(cell, img@, ox as int, oy as int, x as int, y as int, mode, back),
{
    if ox <= x && x - ox < img.width && oy <= y && y - oy < img.height {
        let p = img.get_pixel(x - ox, y - oy);
        let c = composite_pixel(p, back);
        paint(cell, c, mode, y)
    } else {
        cell
    }
}

/// Where the image to draw comes from.
#[derive(Clone, Debug)]
pub enum ImageSource {
    /// A buffer loaded beforehand, scaled down to each area it does not fit.
    Fixed(PixelBuffer),
    /// A generator asked, at each render, for an image of the area's canvas
    /// size (see `generator_target`); what it returns is drawn as it is.
    Generator,
}

/// An image, with how to render it into an area of cells.
#[derive(Clone, Debug)]
pub struct Image {
    pub style: Style,
    pub source: ImageSource,
    pub color_mode: ColorMode,
    pub alignment: Alignment,
}

/// What a generator returned, as a raster.
pub open spec fn generated_view(generated: Option<PixelBuffer>) -> Option<Raster> {
    match generated {
        Some(g) => Some(g@),
        None => None,
    }
}

impl Image {
    pub open spec fn wf(&self) -> bool {
        self.source matches ImageSource::Fixed(img) ==> img@.wf()
    }

    /// Renders `img` in `Luma` mode, centred, with the default style.
    pub fn with_img(img: PixelBuffer) -> (r: Image)
        ensures
            r.source == ImageSource::Fixed(img),
            r.style == Style::unset(),
            r.color_mode == ColorMode::Luma,
            r.alignment == Alignment::Center,
    {
        Image {
            style: Style { fg: None, bg: None, add_modifier: 0, sub_modifier: 0 },
            source: ImageSource::Fixed(img),
            color_mode: ColorMode::Luma,
            alignment: Alignment::Center,
        }
    }

    /// Renders what a generator returns, in `Luma` mode, centred, with the
    /// default style.
    pub fn with_generator() -> (r: Image)
        ensures
            r.source == ImageSource::Generator,
            r.style == Style::unset(),
            r.color_mode == ColorMode::Luma,
            r.alignment == Alignment::Center,
    {
        Image {
            style: Style { fg: None, bg: None, add_modifier: 0, sub_modifier: 0 },
            source: ImageSource::Generator,
            color_mode: ColorMode::Luma,
            alignment: Alignment::Center,
        }
    }

    pub fn color_mode(self, color_mode: ColorMode) -> (r: Image)
        ensures
            r == (Image { color_mode, ..self }),
    {
        Image { color_mode, ..self }
    }

    pub fn style(self, style: Style) -> (r: Image)
        ensures
            r == (Image { style, ..self }),
    {
        Image { style, ..self }
    }

    pub fn alignment(self, alignment: Alignment) -> (r: Image)
        ensures
            r == (Image { alignment, ..self }),
    {
        Image { alignment, ..self }
    }

    /// The cell at column `x`, row `y` of `area` once `img` is drawn there.
    pub open spec fn drawn_at(&self, area: Rect, img: Raster, cell: Cell, x: int, y: int) -> Cell {
        cell_drawn(
            cell,
            img,
            offset_x(self.alignment, area.width as int, img.width as int),
            offset_y(area.height as int, img.height as int),
            x - area.x,
            y - area.y,
            self.color_mode,
            backdrop_of(self.style),
        )
    }

    /// Draws `img` into `area` of `buf`: offset by the alignment and centred
    /// vertically, each pixel composited over the style's background, and
    /// clipped to the area's canvas.
    pub fn draw_img(&self, area: Rect, buf: &mut CellBuffer, img: &PixelBuffer)
        requires
            old(buf).wf(),
            old(buf).area.contains(area),
            img@.wf(),
        ensures
            final(buf).wf(),
            final(buf).area == old(buf).area,
            forall|i: int|
                0 <= i < old(buf).content@.len() ==> #[trigger] final(buf).content@[i] == if area.holds(
                    old(buf).column_of(i),
                    old(buf).row_of(i),
                ) {
                    self.drawn_at(
                        area,
                        img@,
                        old(buf).content@[i],
                        old(buf).column_of(i),
                        old(buf).row_of(i),
                    )
                } else {
                    old(buf).content@[i]
                },
    {
        let back = backdrop(self.style);
        let ox = horizontal_offset(self.alignment, area.width, img.width) as u32;
        let oy = vertical_offset(area.height, img.height);
        let n = buf.content.len();
        let w = buf.area.width as usize;
        let mut i: usize = 0;
        while i < n
            invariant
                old(buf).wf(),
                n == old(buf).content@.len(),
                n == buf.area.width * buf.area.height,
                w == buf.area.width,
                buf.area == old(buf).area,
                buf.content@.len() == n,
                i <= n,
                img@.wf(),
                back == backdrop_of(self.style),
                ox == offset_x(self.alignment, area.width as int, img.width as int),
                oy == offset_y(area.height as int, img.height as int),
                forall|j: int|
                    0 <= j < i ==> #[trigger] buf.content@[j] == if area.holds(
                        old(buf).column_of(j),
                        old(buf).row_of(j),
                    ) {
                        self.drawn_at(
                            area,
                            img@,
                            old(buf).content@[j],
                            old(buf).column_of(j),
                            old(buf).row_of(j),
                        )
                    } else {
                        old(buf).content@[j]
                    },
                forall|j: int| i <= j < n ==> #[trigger] buf.content@[j] == old(buf).content@[j],
            decreases n - i,
        {
            proof {
                crate::cells::lemma_index_position(i as int, w as int, buf.area.height as int);
            }
            let x = buf.area.x as usize + i % w;
            let y = buf.area.y as usize + i / w;
            if area.x as usize <= x && x < area.x as usize + area.width as usize && area.y as usize
                <= y && y < area.y as usize + area.height as usize {
                let cx = (x - area.x as usize) as u32;
                let cr = (y - area.y as usize) as u32;
                let cell = buf.content[i];
                let upper = canvas_step_exec(cell, img, ox, oy, cx, 2 * cr, self.color_mode, back);
                let both = canvas_step_exec(
                    upper,
                    img,
                    ox,
                    oy,
                    cx,
                    2 * cr + 1,
                    self.color_mode,
                    back,
                );
                buf.content.set(i, both);
            }
            i += 1;
        }
    }

    /// The image drawn into `area`: a fixed image as it is where it fits the
    /// area's canvas and resampled to the canvas where it does not (one with
    /// no pixels draws nothing); for a generator, what it returned, if anything.
    pub open spec fn picture(&self, area: Rect, generated: Option<Raster>) -> Option<Raster> {
        match self.source {
            ImageSource::Fixed(img) => if img@.is_empty() {
                None
            } else if needs_scaling(area, img.width as int, img.height as int) {
                Some(
                    Raster {
                        width: area.width as nat,
                        height: area.canvas_height() as nat,
                        data: nearest_resized(
                            img.data@,
                            img.width as nat,
                            img.height as nat,
                            area.width as nat,
                            area.canvas_height() as nat,
                        ),
                    },
                )
            } else {
                Some(img@)
            },
            ImageSource::Generator => generated,
        }
    }

    /// Whether the image comes from a generator that returned nothing.
    pub open spec fn generator_failed(&self, generated: Option<Raster>) -> bool {
        self.source is Generator && generated is None
    }

    /// The cell at column `x`, row `y` once rendered into `area`: cells off the
    /// area, and every cell where the area is empty or the generator returned
    /// nothing, stay as they were; the others get the style, then the picture.
    pub open spec fn rendered_cell(
        &self,
        area: Rect,
        generated: Option<Raster>,
        cell: Cell,
        x: int,
        y: int,
    ) -> Cell {
        if area.is_empty_spec() || !area.holds(x, y) || self.generator_failed(generated) {
            cell
        } else {
            match self.picture(area, generated) {
                Some(img) => self.drawn_at(area, img, cell.styled(self.style), x, y),
                None => cell.styled(self.style),
            }
        }
    }

    /// `after` is `before` with this image rendered into `area`.
    pub open spec fn renders_to(
        &self,
        area: Rect,
        generated: Option<Raster>,
        before: CellBuffer,
        after: CellBuffer,
    ) -> bool {
        &&& after.wf()
        &&& after.area == before.area
        &&& after.content@.len() == before.content@.len()
        &&& forall|i: int|
            0 <= i < before.content@.len() ==> #[trigger] after.content@[i] == self.rendered_cell(
                area,
                generated,
                before.content@[i],
                before.column_of(i),
                before.row_of(i),
            )
    }

    /// What rendering into `area` asks of it: an empty area asks nothing, a
    /// non-empty one must lie inside the buffer, and scaling a fixed image to
    /// its canvas must stay within memory.
    pub open spec fn fits(&self, area: Rect, buf: CellBuffer) -> bool {
        !area.is_empty_spec() ==> {
            &&& buf.area.contains(area)
            &&& (self.source matches ImageSource::Fixed(img) ==> scaling_fits_memory(
                img.width as int,
                area,
            ))
        }
    }

    /// Renders into `area` of `buf`: lays the style over the area, then draws
    /// the picture. `generated` is what the generator returned for this
    /// render; it is read only where the source is a generator, and where it
    /// is `None` the buffer is left as it was.
    pub fn render(&self, area: Rect, buf: &mut CellBuffer, generated: Option<PixelBuffer>)
        requires
            self.wf(),
            old(buf).wf(),
            self.fits(area, *old(buf)),
            generated matches Some(g) ==> g@.wf(),
        ensures
            self.renders_to(area, generated_view(generated), *old(buf), *final(buf)),
            area.is_empty_spec() || self.generator_failed(generated_view(generated)) ==> *final(buf)
                == *old(buf),
            !area.is_empty_spec() ==> (self.source matches ImageSource::Fixed(img) ==> (
            !img@.is_empty() ==> (self.picture(area, generated_view(generated)) matches Some(p)
                && (p == img@ || copies_pixels(p, img@))))),
    {
        if area.is_empty() {
            return ;
        }
        match &self.source {
            ImageSource::Fixed(img) => {
                buf.set_style(area, self.style);
                if img.width == 0 || img.height == 0 {
                    return ;
                }
                match fit_to_area(img, area) {
                    Some(scaled) => self.draw_img(area, buf, &scaled),
                    None => self.draw_img(area, buf, img),
                }
            },
            ImageSource::Generator => {
                if let Some(g) = &generated {
                    buf.set_style(area, self.style);
                    self.draw_img(area, buf, g);
                }
            },
        }
    }
}

/// The size, in pixels, of the image to ask a generator for when rendering
/// into `area`: the area's canvas, or `None` where the area is empty and the
/// generator is not asked at all.
pub fn generator_target(area: Rect) -> (r: Option<(usize, usize)>)
    ensures
        r is None <==> area.is_empty_spec(),
        r matches Some(t) ==> t.0 == area.width && t.1 == area.canvas_height(),
{
    if area.is_empty() {
        None
    } else {
        Some((area.width as usize, 2 * (area.height as usize)))
    }
}

/// The backdrop as a blend: what a fully transparent pixel composites to.
pub open spec fn backdrop_blend(back: Backdrop) -> Blend {
    Blend { r: back.r * 255, g: back.g * 255, b: back.b * 255 }
}

/// A fully transparent pixel composites to the backdrop alone; in `Luma` mode,
/// over a backdrop whose own density level is zero, it leaves the cell as it
/// was.
pub proof fn lemma_transparent_pixel_luma(cell: Cell, p: Rgba, back: Backdrop, y: int)
    requires
        p.a == 0,
        luma_level(backdrop_blend(back)) == 0,
    ensures
        composite(p, back) == backdrop_blend(back),
        painted(cell, composite(p, back), ColorMode::Luma, y) == cell,
{
}

/// A fully opaque pixel in `Rgb` mode: on an even canvas row it sets the
/// half-block glyph and its own colour as foreground; on an odd row, its own
/// colour as background; drawn on both rows of a cell, it leaves a half block
/// with foreground and background both its colour.
pub proof fn lemma_opaque_pixel_rgb(cell: Cell, p: Rgba, back: Backdrop, k: int)
    requires
        p.a == 255,
    ensures
        painted(cell, composite(p, back), ColorMode::Rgb, 2 * k) == (Cell {
            symbol: BLOCK_UPPER_HALF,
            fg: Color::Rgb(p.r, p.g, p.b),
            ..cell
        }),
        painted(cell, composite(p, back), ColorMode::Rgb, 2 * k + 1) == (Cell {
            bg: Color::Rgb(p.r, p.g, p.b),
            ..cell
        }),
        painted(
            painted(cell, composite(p, back), ColorMode::Rgb, 2 * k),
            composite(p, back),
            ColorMode::Rgb,
            2 * k + 1,
        ) == (Cell {
            symbol: BLOCK_UPPER_HALF,
            fg: Color::Rgb(p.r, p.g, p.b),
            bg: Color::Rgb(p.r, p.g, p.b),
            ..cell
        }),
{
    let c = composite(p, back);
    assert forall|v: int, b: int| blend_channel(v, 255, b) == v * 255 by {
        assert(v * 255 + b * (255 - 255) == v * 255) by (nonlinear_arith);
    }
    assert((p.r * 255) / 255 == p.r) by (nonlinear_arith);
    assert((p.g * 255) / 255 == p.g) by (nonlinear_arith);
    assert((p.b * 255) / 255 == p.b) by (nonlinear_arith);
    assert((2 * k) % 2 == 0 && (2 * k + 1) % 2 == 1) by (nonlinear_arith);
}

proof fn lemma_styled_twice(cell: Cell, style: Style)
    ensures
        cell.styled(style).styled(style) == cell.styled(style),
{
    let m = cell.modifier;
    let a = style.add_modifier;
    let s = style.sub_modifier;
    assert((((m | a) & !s) | a) & !s == (m | a) & !s) by (bit_vector);
}

/// Rendering a cell a second time, with the same image, area and generator
/// result, leaves it as the first render did.
pub proof fn lemma_rendered_cell_idempotent(
    image: Image,
    area: Rect,
    generated: Option<Raster>,
    cell: Cell,
    x: int,
    y: int,
)
    ensures
        image.rendered_cell(area, generated, image.rendered_cell(area, generated, cell, x, y), x, y)
            == image.rendered_cell(area, generated, cell, x, y),
{
    lemma_styled_twice(cell, image.style);
    let once = image.rendered_cell(area, generated, cell, x, y);
    lemma_styled_twice(once, image.style);
}

/// Rendering the same image into the same area twice in a row leaves the
/// buffer as the first render did.
pub proof fn lemma_render_twice(
    image: Image,
    area: Rect,
    generated: Option<Raster>,
    first: CellBuffer,
    second: CellBuffer,
    third: CellBuffer,
)
    requires
        image.renders_to(area, generated, first, second),
        image.renders_to(area, generated, second, third),
    ensures
        third.area == second.area,
        third.content@ == second.content@,
{
    assert forall|i: int| 0 <= i < second.content@.len() implies third.content@[i]
        == second.content@[i] by {
        lemma_rendered_cell_idempotent(
            image,
            area,
            generated,
            first.content@[i],
            first.column_of(i),
            first.row_of(i),
        );
    }
    assert(third.content@ =~= second.content@);
}

/// Rendering the same image into the same area of equal buffers gives equal
/// buffers.
pub proof fn lemma_render_deterministic(
    image: Image,
    area: Rect,
    generated: Option<Raster>,
    before: CellBuffer,
    one: CellBuffer,
    other: CellBuffer,
)
    requires
        image.renders_to(area, generated, before, one),
        image.renders_to(area, generated, before, other),
    ensures
        one.area == other.area,
        one.content@ == other.content@,
{
    assert(one.content@ =~= other.content@);
}

/// An opaque white 2×2 image rendered in `Rgb` mode into a one-cell area
/// leaves that cell a half block, white above and below, whatever the
/// alignment and style. The picture's pixels being copies of the image's is
/// what `render` ensures of a fixed image.
pub proof fn lemma_white_square_into_one_cell(
    image: Image,
    img: PixelBuffer,
    area: Rect,
    generated: Option<Raster>,
    cell: Cell,
)
    requires
        image.source == ImageSource::Fixed(img),
        image.color_mode == ColorMode::Rgb,
        img@.wf(),
        img.width == 2,
        img.height == 2,
        forall|x: int, y: int|
            0 <= x < 2 && 0 <= y < 2 ==> #[trigger] img@.pixel(x, y) == (Rgba {
                r: 255,
                g: 255,
                b: 255,
                a: 255,
            }),
        area.width == 1,
        area.height == 1,
        image.picture(area, generated) matches Some(p) && (p == img@ || copies_pixels(p, img@)),
    ensures
        image.rendered_cell(area, generated, cell, area.x as int, area.y as int) == (Cell {
            symbol: BLOCK_UPPER_HALF,
            fg: Color::Rgb(255, 255, 255),
            bg: Color::Rgb(255, 255, 255),
            ..cell.styled(image.style)
        }),
{
    let white = Rgba { r: 255, g: 255, b: 255, a: 255 };
    let p = image.picture(area, generated).unwrap();
    assert(p.width == 1 && p.height == 2);
    lemma_uniform_copy(p, img@, white);
    assert(p.pixel(0, 0) == white && p.pixel(0, 1) == white);
    let back = backdrop_of(image.style);
    let styled = cell.styled(image.style);
    assert(offset_x(image.alignment, 1, 1) == 0);
    assert(offset_y(1, 2) == 0);
    lemma_opaque_pixel_rgb(styled, white, back, 0);
}

/// In `Rgb` mode, a cell of the area whose upper canvas row falls on an opaque
/// pixel of the image becomes a half block with that pixel's own colour as
/// foreground; one whose lower canvas row falls on an opaque pixel gets that
/// pixel's colour as background.
pub proof fn lemma_opaque_pixel_drawn(
    image: Image,
    area: Rect,
    img: Raster,
    cell: Cell,
    x: int,
    y: int,
)
    requires
        image.color_mode == ColorMode::Rgb,
        area.holds(x, y),
    ensures
        ({
            let ox = offset_x(image.alignment, area.width as int, img.width as int);
            let oy = offset_y(area.height as int, img.height as int);
            let cx = x - area.x;
            let upper = 2 * (y - area.y);
            let p = img.pixel(cx - ox, upper - oy);
            ox <= cx < ox + img.width && oy <= upper < oy + img.height && p.a == 255 ==> {
                &&& image.drawn_at(area, img, cell, x, y).symbol == BLOCK_UPPER_HALF
                &&& image.drawn_at(area, img, cell, x, y).fg == Color::Rgb(p.r, p.g, p.b)
            }
        }),
        ({
            let ox = offset_x(image.alignment, area.width as int, img.width as int);
            let oy = offset_y(area.height as int, img.height as int);
            let cx = x - area.x;
            let lower = 2 * (y - area.y) + 1;
            let q = img.pixel(cx - ox, lower - oy);
            ox <= cx < ox + img.width && oy <= lower < oy + img.height && q.a == 255
                ==> image.drawn_at(area, img, cell, x, y).bg == Color::Rgb(q.r, q.g, q.b)
        }),
{
    let ox = offset_x(image.alignment, area.width as int, img.width as int);
    let oy = offset_y(area.height as int, img.height as int);
    let cx = x - area.x;
    let cr = y - area.y;
    let back = backdrop_of(image.style);
    let first = canvas_step(cell, img, ox, oy, cx, 2 * cr, ColorMode::Rgb, back);
    assert((2 * cr) % 2 == 0 && (2 * cr + 1) % 2 == 1) by (nonlinear_arith);
    if img.pixel(cx - ox, 2 * cr - oy).a == 255 {
        lemma_opaque_pixel_rgb(cell, img.pixel(cx - ox, 2 * cr - oy), back, cr);
    }
    if img.pixel(cx - ox, 2 * cr + 1 - oy).a == 255 {
        lemma_opaque_pixel_rgb(first, img.pixel(cx - ox, 2 * cr + 1 - oy), back, cr);
    }
}

/// In `Luma` mode, an image whose pixels are all fully transparent, drawn
/// over a backdrop whose own density level is zero, leaves every cell of the
/// area as it was.
pub proof fn lemma_transparent_image_luma(
    image: Image,
    area: Rect,
    img: Raster,
    cell: Cell,
    x: int,
    y: int,
)
    requires
        image.color_mode == ColorMode::Luma,
        forall|i: int, j: int|
            0 <= i < img.width && 0 <= j < img.height ==> (#[trigger] img.pixel(i, j)).a == 0,
        luma_level(backdrop_blend(backdrop_of(image.style))) == 0,
    ensures
        image.drawn_at(area, img, cell, x, y) == cell,
{
    let ox = offset_x(image.alignment, area.width as int, img.width as int);
    let oy = offset_y(area.height as int, img.height as int);
    let cx = x - area.x;
    let cr = y - area.y;
    let back = backdrop_of(image.style);
    if ox <= cx < ox + img.width && oy <= 2 * cr < oy + img.height {
        lemma_transparent_pixel_luma(cell, img.pixel(cx - ox, 2 * cr - oy), back, 2 * cr);
    }
    if ox <= cx < ox + img.width && oy <= 2 * cr + 1 < oy + img.height {
        lemma_transparent_pixel_luma(cell, img.pixel(cx - ox, 2 * cr + 1 - oy), back, 2 * cr + 1);
    }
}

} // verus!
