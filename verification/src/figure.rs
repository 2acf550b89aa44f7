//! Fixed-size 2D bitmask sprites: the unit of drawing and collision.
//!
//! A `Figure` is a `width x height` bit matrix (at most 8x8, stored in a
//! flat 64-cell array, row-major with a stride of 8). Rotation by 90
//! degrees clockwise produces a new figure; four rotations are the
//! identity, which the game's direction bookkeeping depends on.
use vstd::prelude::*;

verus! {

broadcast use vstd::array::group_array_axioms;

/// The mathematical model of a figure: its dimensions and the flat
/// sequence of 64 cell bits (row-major, stride 8).
#[verifier::ext_equal]
pub ghost struct FigureV {
    pub w: int,
    pub h: int,
    pub cells: Seq<bool>,
}

impl FigureV {
    /// The bit at column `c`, row `r` of the flat cell sequence.
    pub open spec fn cell(self, c: int, r: int) -> bool {
        self.cells[r * 8 + c]
    }

    /// Well-formed: dimensions in `[1, 8]`, exactly 64 stored bits, and
    /// every bit outside the `w x h` window cleared.
    pub open spec fn wf(self) -> bool {
        &&& 1 <= self.w <= 8
        &&& 1 <= self.h <= 8
        &&& self.cells.len() == 64
        &&& forall|i: int|
            0 <= i < 64 && !(i % 8 < self.w && i / 8 < self.h) ==> !self.cells[i]
    }
}

/// The figure rotated 90 degrees clockwise: dimensions swap, and the
/// new cell `(c, r)` comes from the old cell `(r, h - 1 - c)`.
pub open spec fn spec_rotate(v: FigureV) -> FigureV {
    FigureV {
        w: v.h,
        h: v.w,
        cells: Seq::new(
            64,
            |i: int|
                {
                    let c = i % 8;
                    let r = i / 8;
                    c < v.h && r < v.w && v.cell(r, v.h - 1 - c)
                },
        ),
    }
}

/// `n` clockwise rotations applied in sequence.
pub open spec fn spin(v: FigureV, n: int) -> FigureV
    decreases n,
{
    if n <= 0 {
        v
    } else {
        spec_rotate(spin(v, n - 1))
    }
}

/// Reading one cell of a rotated figure in terms of the original.
pub proof fn lemma_rotate_cell(v: FigureV, c: int, r: int)
    requires
        0 <= c < 8,
        0 <= r < 8,
    ensures
        spec_rotate(v).cell(c, r) == (c < v.h && r < v.w && v.cell(r, v.h - 1 - c)),
{
    assert((r * 8 + c) / 8 == r && (r * 8 + c) % 8 == c) by (nonlinear_arith)
        requires
            0 <= c < 8,
            0 <= r < 8,
    ;
}

/// Rotation preserves well-formedness.
pub proof fn lemma_rotate_wf(v: FigureV)
    requires
        v.wf(),
    ensures
        spec_rotate(v).wf(),
{
    let s = spec_rotate(v);
    assert forall|i: int| 0 <= i < 64 && !(i % 8 < s.w && i / 8 < s.h) implies !s.cells[i] by {
        lemma_rotate_cell(v, i % 8, i / 8);
        assert((i / 8) * 8 + i % 8 == i) by (nonlinear_arith)
            requires
                0 <= i < 64,
        ;
    }
}

/// Any number of rotations preserves well-formedness.
pub proof fn lemma_spin_wf(v: FigureV, n: int)
    requires
        v.wf(),
        n >= 0,
    ensures
        spin(v, n).wf(),
    decreases n,
{
    if n > 0 {
        lemma_spin_wf(v, n - 1);
        lemma_rotate_wf(spin(v, n - 1));
    }
}

/// One cell of a four-fold rotation equals the original cell.
proof fn lemma_rotate_four_cell(v: FigureV, c: int, r: int)
    requires
        v.wf(),
        0 <= c < 8,
        0 <= r < 8,
    ensures
        spin(v, 4).cell(c, r) == v.cell(c, r),
{
    reveal_with_fuel(spin, 5);
    let s1 = spec_rotate(v);
    let s2 = spec_rotate(s1);
    let s3 = spec_rotate(s2);
    let s4 = spec_rotate(s3);
    assert(spin(v, 4) == s4);
    assert((r * 8 + c) / 8 == r && (r * 8 + c) % 8 == c) by (nonlinear_arith)
        requires
            0 <= c < 8,
            0 <= r < 8,
    ;
    if c < v.w && r < v.h {
        lemma_rotate_cell(s3, c, r);
        lemma_rotate_cell(s2, r, v.w - 1 - c);
        lemma_rotate_cell(s1, v.w - 1 - c, v.h - 1 - r);
        lemma_rotate_cell(v, v.h - 1 - r, c);
    } else {
        lemma_rotate_cell(s3, c, r);
        if c < s4.w && r < s4.h {
            lemma_rotate_cell(s2, r, v.w - 1 - c);
            lemma_rotate_cell(s1, v.w - 1 - c, v.h - 1 - r);
            lemma_rotate_cell(v, v.h - 1 - r, c);
        }
        assert(!v.cells[r * 8 + c]);
    }
}

/// Rotation closure: four clockwise rotations are the identity on any
/// well-formed figure.
pub proof fn lemma_rotate_four(v: FigureV)
    requires
        v.wf(),
    ensures
        spin(v, 4) == v,
{
    reveal_with_fuel(spin, 5);
    let s4 = spin(v, 4);
    assert forall|i: int| 0 <= i < 64 implies s4.cells[i] == v.cells[i] by {
        assert((i / 8) * 8 + i % 8 == i) by (nonlinear_arith)
            requires
                0 <= i < 64,
        ;
        lemma_rotate_four_cell(v, i % 8, i / 8);
    }
    lemma_spin_wf(v, 4);
    assert(s4.cells =~= v.cells);
    assert(s4 =~= v);
}

/// A fixed-size bitmask sprite: `width x height` cells, `true` = solid.
#[derive(Clone, Copy, PartialEq, Eq, Debug)]
pub struct Figure {
    pub width: u8,
    pub height: u8,
    pub cells: [bool; 64],
}

impl View for Figure {
    type V = FigureV;

    open spec fn view(&self) -> FigureV {
        FigureV { w: self.width as int, h: self.height as int, cells: self.cells@ }
    }
}

impl Figure {
    /// Width of the sprite in cells.
    pub fn width(&self) -> (r: usize)
        ensures
            r == self@.w,
    {
        self.width as usize
    }

    /// Height of the sprite in cells.
    pub fn height(&self) -> (r: usize)
        ensures
            r == self@.h,
    {
        self.height as usize
    }

    /// The bit at `(col, row)`; the caller keeps both inside the
    /// sprite's dimensions.
    pub fn get_bit(&self, col: usize, row: usize) -> (r: bool)
        requires
            self@.wf(),
            col < self@.w,
            row < self@.h,
        ensures
            r == self@.cell(col as int, row as int),
    {
        self.cells[row * 8 + col]
    }

    /// The sprite rotated 90 degrees clockwise; four applications give
    /// back the original figure.
    pub fn rotate(&self) -> (g: Figure)
        requires
            self@.wf(),
        ensures
            g@ == spec_rotate(self@),
            g@.wf(),
    {
        let w = self.width as usize;
        let h = self.height as usize;
        let mut cells: [bool; 64] = [false;64];
        let mut c: usize = 0;
        while c < h
            invariant
                c <= h,
                forall|i: int|
                    0 <= i < 64 ==> #[trigger] cells@[i] == (i % 8 < c && i / 8 < self@.w
                        && self@.cell(i / 8, self@.h - 1 - i % 8)),
            decreases h - c,
        {
            let mut r: usize = 0;
            while r < w
                invariant
                    c < h,
                    r <= w,
                    forall|i: int|
                        0 <= i < 64 ==> #[trigger] cells@[i] == ((i % 8 < c || (i % 8 == c && i / 8
                            < r)) && i / 8 < self@.w && self@.cell(i / 8, self@.h - 1 - i % 8)),
                decreases w - r,
            {
                let bit = self.get_bit(r, h - 1 - c);
                cells[r * 8 + c] = bit;
                proof {
                    assert forall|i: int| 0 <= i < 64 implies #[trigger] cells@[i] == ((i % 8 < c
                        || (i % 8 == c && i / 8 < r + 1)) && i / 8 < self@.w && self@.cell(
                        i / 8,
                        self@.h - 1 - i % 8,
                    )) by {
                        assert(i == r * 8 + c <==> (i % 8 == c && i / 8 == r)) by (nonlinear_arith)
                            requires
                                0 <= i < 64 && 0 <= c < 8 && 0 <= r < 8,
                        ;
                    }
                }
                r = r + 1;
            }
            c = c + 1;
        }
        let g = Figure { width: self.height, height: self.width, cells };
        proof {
            let t = spec_rotate(self@);
            assert forall|i: int| 0 <= i < 64 implies g@.cells[i] == t.cells[i] by {
                assert(0 <= i % 8 < 8 && 0 <= i / 8 < 8) by (nonlinear_arith)
                    requires
                        0 <= i < 64,
                ;
            }
            assert(g@.cells =~= t.cells);
            assert(g@ =~= t);
            lemma_rotate_wf(self@);
        }
        g
    }
}

/// True when the figure, placed with its top-left corner at `(x, y)`,
/// has a solid cell on the point `(px, py)`. The covering cell, if any,
/// is unique: column `px - x`, row `py - y`.
pub open spec fn covers(f: FigureV, x: int, y: int, px: int, py: int) -> bool {
    0 <= px - x < f.w && 0 <= py - y < f.h && f.cell(px - x, py - y)
}

/// The bits of the base tank sprite (down-facing, 3x3):
/// solid at (0,0), (2,0), (0,1), (1,1), (2,1), (1,2).
pub open spec fn tank_base_bit(i: int) -> bool {
    i == 0 || i == 2 || i == 8 || i == 9 || i == 10 || i == 17
}

/// The base tank sprite in its canonical down-facing orientation.
pub open spec fn tank_base() -> FigureV {
    FigureV { w: 3, h: 3, cells: Seq::new(64, |i: int| tank_base_bit(i)) }
}

/// The base tank sprite is well-formed.
pub proof fn lemma_tank_base_wf()
    ensures
        tank_base().wf(),
{
    assert forall|i: int| 0 <= i < 64 && !(i % 8 < 3 && i / 8 < 3) implies !tank_base().cells[i] by {
        if tank_base_bit(i) {
            assert(i % 8 < 3 && i / 8 < 3);
        }
    }
}

/// The center cell (1, 1) is solid in the base sprite and in each of
/// its four rotations; movement checks use it to pin the tank's
/// position to the playfield.
pub proof fn lemma_spin_center(n: int)
    requires
        0 <= n < 4,
    ensures
        spin(tank_base(), n).wf(),
        spin(tank_base(), n).w == 3,
        spin(tank_base(), n).h == 3,
        spin(tank_base(), n).cell(1, 1),
{
    lemma_tank_base_wf();
    lemma_spin_wf(tank_base(), n);
    let b = tank_base();
    assert(b.cell(1, 1));
    if n >= 1 {
        lemma_rotate_cell(spin(b, 0), 1, 1);
    }
    if n >= 2 {
        lemma_rotate_cell(spin(b, 1), 1, 1);
    }
    if n >= 3 {
        lemma_rotate_cell(spin(b, 2), 1, 1);
    }
}

/// Advancing one rotation step from any of the four facings lands on
/// the next facing, wrapping after the fourth.
pub proof fn lemma_spin_step(n: int)
    requires
        0 <= n < 4,
    ensures
        spec_rotate(spin(tank_base(), n)) == spin(tank_base(), (n + 1) % 4),
{
    if n == 3 {
        lemma_tank_base_wf();
        lemma_rotate_four(tank_base());
    }
}

/// Builds the base tank sprite.
pub fn tank_figure() -> (f: Figure)
    ensures
        f@ == tank_base(),
        f@.wf(),
{
    let mut cells: [bool; 64] = [false;64];
    cells[0] = true;
    cells[2] = true;
    cells[8] = true;
    cells[9] = true;
    cells[10] = true;
    cells[17] = true;
    let f = Figure { width: 3, height: 3, cells };
    proof {
        assert forall|i: int| 0 <= i < 64 implies f@.cells[i] == tank_base().cells[i] by {}
        assert(f@.cells =~= tank_base().cells);
        assert(f@ =~= tank_base());
        lemma_tank_base_wf();
    }
    f
}

} // verus!
