//! The display's cell grid: colours, styles, cells and the buffer that holds them.

use vstd::prelude::*;
use crate::geometry::Rect;

verus! {

/// A terminal colour: one of the named ones, an RGB triple or a palette index.
#[derive(Clone, Copy, Debug, PartialEq, Eq, Structural)]
pub enum Color {
    Reset,
    Black,
    Red,
    Green,
    Yellow,
    Blue,
    Magenta,
    Cyan,
    Gray,
    DarkGray,
    LightRed,
    LightGreen,
    LightYellow,
    LightBlue,
    LightMagenta,
    LightCyan,
    White,
    Rgb(u8, u8, u8),
    Indexed(u8),
}

/// Colours and text modifiers to lay over cells; `None` leaves a colour as it is.
/// Modifiers are bit sets: `add_modifier` is switched on, then `sub_modifier` off.
#[derive(Clone, Copy, Debug, PartialEq, Eq, Structural)]
pub struct Style {
    pub fg: Option<Color>,
    pub bg: Option<Color>,
    pub add_modifier: u16,
    pub sub_modifier: u16,
}

impl Style {
    /// The style that changes nothing: no colours, no modifiers.
    pub open spec fn unset() -> Style {
        Style { fg: None, bg: None, add_modifier: 0, sub_modifier: 0 }
    }
}

impl Default for Style {
    fn default() -> (r: Style)
        ensures
            r == Style::unset(),
    {
        Style { fg: None, bg: None, add_modifier: 0, sub_modifier: 0 }
    }
}

/// One character position of the display.
#[derive(Clone, Copy, Debug, PartialEq, Eq, Structural)]
pub struct Cell {
    pub symbol: char,
    pub fg: Color,
    pub bg: Color,
    pub modifier: u16,
}

impl Cell {
    /// The cell once `style` is laid over it.
    pub open spec fn styled(self, style: Style) -> Cell {
        Cell {
            symbol: self.symbol,
            fg: match style.fg {
                Some(c) => c,
                None => self.fg,
            },
            bg: match style.bg {
                Some(c) => c,
                None => self.bg,
            },
            modifier: (self.modifier | style.add_modifier) & !style.sub_modifier,
        }
    }

    pub fn set_style(&mut self, style: Style)
        ensures
            *final(self) == old(self).styled(style),
    {
        if let Some(c) = style.fg {
            self.fg = c;
        }
        if let Some(c) = style.bg {
            self.bg = c;
        }
        self.modifier = (self.modifier | style.add_modifier) & !style.sub_modifier;
    }
}

/// The cells of `area`, row by row.
#[derive(Clone, Debug)]
pub struct CellBuffer {
    pub area: Rect,
    pub content: Vec<Cell>,
}

/// A rectangle of `u16` sides has a cell count that fits in usize.
pub(crate) proof fn lemma_area_fits(w: int, h: int)
    requires
        0 <= w <= 0xffff,
        0 <= h <= 0xffff,
    ensures
        0 <= w * h <= 0xffff * 0xffff,
        0xffff * 0xffff <= usize::MAX,
{
    assert(0 <= w * h <= 0xffff * 0xffff) by (nonlinear_arith)
        requires
            0 <= w <= 0xffff,
            0 <= h <= 0xffff,
    ;
}

/// An index into a `w × h` grid has a positive `w` and a row below `h`.
pub(crate) proof fn lemma_index_position(i: int, w: int, h: int)
    requires
        0 <= i < w * h,
        0 <= w,
        0 <= h,
    ensures
        w > 0,
        0 <= i / w < h,
        0 <= i % w < w,
{
    if w == 0 {
        assert(w * h == 0);
    }
    assert(w > 0);
    vstd::arithmetic::div_mod::lemma_fundamental_div_mod(i, w);
    if i / w >= h {
        assert(w * (i / w) >= w * h) by (nonlinear_arith)
            requires
                i / w >= h,
                w > 0,
        ;
    }
}

impl CellBuffer {
    pub open spec fn wf(&self) -> bool {
        self.content@.len() == self.area.width * self.area.height
    }

    /// Column of the cell stored at index `i`.
    pub open spec fn column_of(&self, i: int) -> int {
        self.area.x + i % (self.area.width as int)
    }

    /// Row of the cell stored at index `i`.
    pub open spec fn row_of(&self, i: int) -> int {
        self.area.y + i / (self.area.width as int)
    }

    /// Index of the cell at column `x`, row `y`.
    pub open spec fn index_of(&self, x: int, y: int) -> int {
        (y - self.area.y) * self.area.width + (x - self.area.x)
    }

    /// A buffer over `area` with every cell equal to `cell`.
    pub fn filled(area: Rect, cell: Cell) -> (r: CellBuffer)
        ensures
            r.wf(),
            r.area == area,
            forall|i: int| 0 <= i < r.content@.len() ==> r.content@[i] == cell,
    {
        proof {
            lemma_area_fits(area.width as int, area.height as int);
        }
        let n: usize = (area.width as usize) * (area.height as usize);
        let mut content: Vec<Cell> = Vec::with_capacity(n);
        let mut i: usize = 0;
        while i < n
            invariant
                i <= n,
                n == area.width * area.height,
                content@.len() == i,
                forall|j: int| 0 <= j < i ==> content@[j] == cell,
            decreases n - i,
        {
            content.push(cell);
            i += 1;
        }
        CellBuffer { area, content }
    }

    /// The cell at column `x`, row `y`.
    pub fn get(&self, x: u16, y: u16) -> (c: Cell)
        requires
            self.wf(),
            self.area.holds(x as int, y as int),
        ensures
            c == self.content@[self.index_of(x as int, y as int)],
    {
        let row = (y - self.area.y) as usize;
        let col = (x - self.area.x) as usize;
        proof {
            let w = self.area.width as int;
            let h = self.area.height as int;
            assert(0 <= row * w && row * w + col < w * h) by (nonlinear_arith)
                requires
                    0 <= col < w,
                    0 <= row < h,
            ;
            lemma_area_fits(w, h);
        }
        self.content[row * (self.area.width as usize) + col]
    }

    /// Lays `style` over every cell of `area`.
    pub fn set_style(&mut self, area: Rect, style: Style)
        requires
            old(self).wf(),
        ensures
            final(self).wf(),
            final(self).area == old(self).area,
            forall|i: int|
                0 <= i < old(self).content@.len() ==> #[trigger] final(self).content@[i] == if area.holds(
                    old(self).column_of(i),
                    old(self).row_of(i),
                ) {
                    old(self).content@[i].styled(style)
                } else {
                    old(self).content@[i]
                },
    {
        let n = self.content.len();
        let w = self.area.width as usize;
        let mut i: usize = 0;
        while i < n
            invariant
                n == old(self).content@.len(),
                n == self.area.width * self.area.height,
                w == self.area.width,
                self.area == old(self).area,
                self.content@.len() == n,
                i <= n,
                forall|j: int|
                    0 <= j < i ==> #[trigger] self.content@[j] == if area.holds(
                        old(self).column_of(j),
                        old(self).row_of(j),
                    ) {
                        old(self).content@[j].styled(style)
                    } else {
                        old(self).content@[j]
                    },
                forall|j: int| i <= j < n ==> #[trigger] self.content@[j] == old(self).content@[j],
            decreases n - i,
        {
            proof {
                lemma_index_position(i as int, w as int, self.area.height as int);
            }
            let x = self.area.x as usize + i % w;
            let y = self.area.y as usize + i / w;
            if area.x as usize <= x && x < area.x as usize + area.width as usize && area.y as usize
                <= y && y < area.y as usize + area.height as usize {
                let mut cell = self.content[i];
                cell.set_style(style);
                self.content.set(i, cell);
            }
            i += 1;
        }
    }
}

} // verus!
