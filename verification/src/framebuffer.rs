//! The logical pixel grid: 8x32 cells, each holding a palette color
//! index, with draw, clear, collision and render operations.
use crate::color::{color_of, spec_color, Rgb, COLORS_LEN};
use crate::figure::{covers, Figure, FigureV};
use vstd::prelude::*;

verus! {

broadcast use vstd::array::group_array_axioms;

/// True when `(x, y)` lies on the 8x32 grid.
pub open spec fn in_grid(x: int, y: int) -> bool {
    0 <= x < 8 && 0 <= y < 32
}

/// The 8x32 logical pixel grid, row-major, one palette index per cell.
#[derive(Clone, Copy, PartialEq, Eq, Debug)]
pub struct FrameBuffer {
    pub cells: [u8; 256],
}

impl FrameBuffer {
    /// The color index at `(x, y)`.
    pub open spec fn at(self, x: int, y: int) -> u8 {
        self.cells@[y * 8 + x]
    }

    /// Well-formed: every cell holds a valid palette index.
    pub open spec fn wf(self) -> bool {
        forall|i: int| 0 <= i < 256 ==> #[trigger] self.cells@[i] < COLORS_LEN
    }

    /// True when some solid cell of `f`, placed at `(x, y)`, either
    /// leaves the grid or lands on a non-background pixel. The score
    /// rows and the delimiter act as walls through this test.
    pub open spec fn spec_collides(self, x: int, y: int, f: FigureV) -> bool {
        exists|c: int, r: int|
            0 <= c < f.w && 0 <= r < f.h && #[trigger] f.cell(c, r) && (!in_grid(x + c, y + r)
                || self.at(x + c, y + r) != 0)
    }

    /// A fresh buffer, every cell background.
    pub fn new() -> (fb: FrameBuffer)
        ensures
            fb.wf(),
            forall|i: int| 0 <= i < 256 ==> #[trigger] fb.cells@[i] == 0,
    {
        FrameBuffer { cells: [0u8;256] }
    }

    /// Resets every cell to the background color.
    pub fn clear(&mut self)
        ensures
            final(self).wf(),
            forall|i: int| 0 <= i < 256 ==> #[trigger] final(self).cells@[i] == 0,
    {
        self.cells = [0u8;256];
    }

    /// The color index at `(x, y)`.
    pub fn get(&self, x: usize, y: usize) -> (r: u8)
        requires
            x < 8,
            y < 32,
        ensures
            r == self.at(x as int, y as int),
    {
        self.cells[y * 8 + x]
    }

    /// Paints the single cell `(x, y)`.
    pub fn set(&mut self, x: usize, y: usize, color: u8)
        requires
            x < 8,
            y < 32,
            color < COLORS_LEN,
            old(self).wf(),
        ensures
            final(self).wf(),
            final(self).cells@ == old(self).cells@.update(y * 8 + x, color),
    {
        self.cells[y * 8 + x] = color;
    }

    /// Static collision: whether placing `figure` at `(x, y)` would
    /// leave the grid or overlap an already painted pixel.
    pub fn collides(&self, x: i8, y: i8, figure: &Figure) -> (hit: bool)
        requires
            figure@.wf(),
        ensures
            hit == self.spec_collides(x as int, y as int, figure@),
    {
        let w = figure.width();
        let h = figure.height();
        let mut row: usize = 0;
        while row < h
            invariant
                row <= h,
                forall|c: int, r: int|
                    0 <= c < figure@.w && 0 <= r < row && #[trigger] figure@.cell(c, r) ==> in_grid(
                        x + c,
                        y + r,
                    ) && self.at(x + c, y + r) == 0,
            decreases h - row,
        {
            let mut col: usize = 0;
            while col < w
                invariant
                    row < h,
                    col <= w,
                    forall|c: int, r: int|
                        0 <= c < figure@.w && 0 <= r < row && #[trigger] figure@.cell(c, r)
                            ==> in_grid(x + c, y + r) && self.at(x + c, y + r) == 0,
                    forall|c: int|
                        0 <= c < col && #[trigger] figure@.cell(c, row as int) ==> in_grid(
                            x + c,
                            y + row,
                        ) && self.at(x + c, y + row) == 0,
                decreases w - col,
            {
                if figure.get_bit(col, row) {
                    let gx = x as i16 + col as i16;
                    let gy = y as i16 + row as i16;
                    if gx < 0 || gx >= 8 || gy < 0 || gy >= 32 {
                        return true;
                    }
                    if self.cells[(gy as usize) * 8 + (gx as usize)] != 0 {
                        return true;
                    }
                }
                col = col + 1;
            }
            row = row + 1;
        }
        false
    }

    /// Paints every solid cell of `figure` placed at `(x, y)` in the
    /// given color, silently clipping cells that fall off the grid.
    pub fn draw_figure(&mut self, x: i8, y: i8, figure: &Figure, color: u8)
        requires
            figure@.wf(),
            color < COLORS_LEN,
            old(self).wf(),
        ensures
            final(self).wf(),
            forall|i: int|
                0 <= i < 256 ==> #[trigger] final(self).cells@[i] == (if covers(
                    figure@,
                    x as int,
                    y as int,
                    i % 8,
                    i / 8,
                ) {
                    color
                } else {
                    old(self).cells@[i]
                }),
    {
        let w = figure.width();
        let h = figure.height();
        let ghost orig = *self;
        let mut row: usize = 0;
        while row < h
            invariant
                row <= h,
                self.wf(),
                forall|i: int|
                    0 <= i < 256 ==> #[trigger] self.cells@[i] == (if covers(
                        figure@,
                        x as int,
                        y as int,
                        i % 8,
                        i / 8,
                    ) && i / 8 - y < row {
                        color
                    } else {
                        orig.cells@[i]
                    }),
            decreases h - row,
        {
            let mut col: usize = 0;
            while col < w
                invariant
                    row < h,
                    col <= w,
                    self.wf(),
                    forall|i: int|
                        0 <= i < 256 ==> #[trigger] self.cells@[i] == (if covers(
                            figure@,
                            x as int,
                            y as int,
                            i % 8,
                            i / 8,
                        ) && (i / 8 - y < row || (i / 8 - y == row && i % 8 - x < col)) {
                            color
                        } else {
                            orig.cells@[i]
                        }),
                decreases w - col,
            {
                if figure.get_bit(col, row) {
                    let gx = x as i16 + col as i16;
                    let gy = y as i16 + row as i16;
                    if gx >= 0 && gx < 8 && gy >= 0 && gy < 32 {
                        self.set(gx as usize, gy as usize, color);
                        proof {
                            assert forall|i: int| 0 <= i < 256 implies #[trigger] self.cells@[i]
                                == (if covers(figure@, x as int, y as int, i % 8, i / 8) && (i / 8
                                - y < row || (i / 8 - y == row && i % 8 - x < col + 1)) {
                                color
                            } else {
                                orig.cells@[i]
                            }) by {
                                assert(i == (gy as int) * 8 + (gx as int) <==> (i % 8 == gx as int
                                    && i / 8 == gy as int)) by (nonlinear_arith)
                                    requires
                                        0 <= i < 256 && 0 <= gx < 8 && 0 <= gy < 32,
                                ;
                            }
                        }
                    }
                }
                col = col + 1;
            }
            row = row + 1;
        }
    }

    /// Maps every cell through the palette into the physical LED
    /// buffer: a deterministic 1:1 cell-to-LED mapping.
    pub fn render(&self, leds: &mut [Rgb; 256])
        requires
            self.wf(),
        ensures
            forall|i: int|
                0 <= i < 256 ==> #[trigger] final(leds)@[i] == spec_color(self.cells@[i] as int),
    {
        let mut i: usize = 0;
        while i < 256
            invariant
                i <= 256,
                forall|j: int|
                    0 <= j < i ==> #[trigger] leds@[j] == spec_color(self.cells@[j] as int),
            decreases 256 - i,
        {
            leds[i] = color_of(self.cells[i]);
            i = i + 1;
        }
    }
}

} // verus!
