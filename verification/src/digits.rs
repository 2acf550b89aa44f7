//! Glyph figures for the ten decimal digits, 3x5 cells each, used to
//! draw the score.
use crate::figure::{Figure, FigureV};
use vstd::prelude::*;

verus! {

/// The bits of the 3x5 glyph for digit `d` (flat index, stride 8).
pub open spec fn digit_bit(d: int, i: int) -> bool {
    if d == 0 {
        i == 0 || i == 1 || i == 2 || i == 8 || i == 10 || i == 16 || i == 18 || i == 24 || i == 26 || i == 32 || i == 33 || i == 34
    } else if d == 1 {
        i == 1 || i == 8 || i == 9 || i == 17 || i == 25 || i == 32 || i == 33 || i == 34
    } else if d == 2 {
        i == 0 || i == 1 || i == 2 || i == 10 || i == 16 || i == 17 || i == 18 || i == 24 || i == 32 || i == 33 || i == 34
    } else if d == 3 {
        i == 0 || i == 1 || i == 2 || i == 10 || i == 16 || i == 17 || i == 18 || i == 26 || i == 32 || i == 33 || i == 34
    } else if d == 4 {
        i == 0 || i == 2 || i == 8 || i == 10 || i == 16 || i == 17 || i == 18 || i == 26 || i == 34
    } else if d == 5 {
        i == 0 || i == 1 || i == 2 || i == 8 || i == 16 || i == 17 || i == 18 || i == 26 || i == 32 || i == 33 || i == 34
    } else if d == 6 {
        i == 0 || i == 1 || i == 2 || i == 8 || i == 16 || i == 17 || i == 18 || i == 24 || i == 26 || i == 32 || i == 33 || i == 34
    } else if d == 7 {
        i == 0 || i == 1 || i == 2 || i == 10 || i == 18 || i == 26 || i == 34
    } else if d == 8 {
        i == 0 || i == 1 || i == 2 || i == 8 || i == 10 || i == 16 || i == 17 || i == 18 || i == 24 || i == 26 || i == 32 || i == 33 || i == 34
    } else {
        i == 0 || i == 1 || i == 2 || i == 8 || i == 10 || i == 16 || i == 17 || i == 18 || i == 26 || i == 32 || i == 33 || i == 34
    }
}

/// The 3x5 glyph of digit `d` as a figure model.
pub open spec fn digit_base(d: int) -> FigureV {
    FigureV { w: 3, h: 5, cells: Seq::new(64, |i: int| digit_bit(d, i)) }
}

/// Every digit glyph is a well-formed 3x5 figure.
pub proof fn lemma_digit_base_wf(d: int)
    ensures
        digit_base(d).wf(),
{
    assert forall|i: int| 0 <= i < 64 && !(i % 8 < 3 && i / 8 < 5) implies !digit_base(
        d,
    ).cells[i] by {
        if digit_bit(d, i) {
            assert(i % 8 < 3 && i / 8 < 5);
        }
    }
}

/// Builds the glyph figure for one decimal digit.
pub fn digit_figure(d: u8) -> (f: Figure)
    requires
        d < 10,
    ensures
        f@ == digit_base(d as int),
        f@.wf(),
{
    let mut cells: [bool; 64] = [false;64];
    if d == 0 {
        cells[0] = true;
        cells[1] = true;
        cells[2] = true;
        cells[8] = true;
        cells[10] = true;
        cells[16] = true;
        cells[18] = true;
        cells[24] = true;
        cells[26] = true;
        cells[32] = true;
        cells[33] = true;
        cells[34] = true;
    } else if d == 1 {
        cells[1] = true;
        cells[8] = true;
        cells[9] = true;
        cells[17] = true;
        cells[25] = true;
        cells[32] = true;
        cells[33] = true;
        cells[34] = true;
    } else if d == 2 {
        cells[0] = true;
        cells[1] = true;
        cells[2] = true;
        cells[10] = true;
        cells[16] = true;
        cells[17] = true;
        cells[18] = true;
        cells[24] = true;
        cells[32] = true;
        cells[33] = true;
        cells[34] = true;
    } else if d == 3 {
        cells[0] = true;
        cells[1] = true;
        cells[2] = true;
        cells[10] = true;
        cells[16] = true;
        cells[17] = true;
        cells[18] = true;
        cells[26] = true;
        cells[32] = true;
        cells[33] = true;
        cells[34] = true;
    } else if d == 4 {
        cells[0] = true;
        cells[2] = true;
        cells[8] = true;
        cells[10] = true;
        cells[16] = true;
        cells[17] = true;
        cells[18] = true;
        cells[26] = true;
        cells[34] = true;
    } else if d == 5 {
        cells[0] = true;
        cells[1] = true;
        cells[2] = true;
        cells[8] = true;
        cells[16] = true;
        cells[17] = true;
        cells[18] = true;
        cells[26] = true;
        cells[32] = true;
        cells[33] = true;
        cells[34] = true;
    } else if d == 6 {
        cells[0] = true;
        cells[1] = true;
        cells[2] = true;
        cells[8] = true;
        cells[16] = true;
        cells[17] = true;
        cells[18] = true;
        cells[24] = true;
        cells[26] = true;
        cells[32] = true;
        cells[33] = true;
        cells[34] = true;
    } else if d == 7 {
        cells[0] = true;
        cells[1] = true;
        cells[2] = true;
        cells[10] = true;
        cells[18] = true;
        cells[26] = true;
        cells[34] = true;
    } else if d == 8 {
        cells[0] = true;
        cells[1] = true;
        cells[2] = true;
        cells[8] = true;
        cells[10] = true;
        cells[16] = true;
        cells[17] = true;
        cells[18] = true;
        cells[24] = true;
        cells[26] = true;
        cells[32] = true;
        cells[33] = true;
        cells[34] = true;
    } else {
        cells[0] = true;
        cells[1] = true;
        cells[2] = true;
        cells[8] = true;
        cells[10] = true;
        cells[16] = true;
        cells[17] = true;
        cells[18] = true;
        cells[26] = true;
        cells[32] = true;
        cells[33] = true;
        cells[34] = true;
    }
    let f = Figure { width: 3, height: 5, cells };
    proof {
        assert forall|i: int| 0 <= i < 64 implies f@.cells[i] == digit_base(d as int).cells[i] by {}
        assert(f@.cells =~= digit_base(d as int).cells);
        assert(f@ =~= digit_base(d as int));
        lemma_digit_base_wf(d as int);
    }
    f
}

} // verus!
