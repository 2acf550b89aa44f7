//! The fixed palette: small integer color indices and the RGB triples
//! they map to on the physical LEDs.
use vstd::prelude::*;

verus! {

/// One physical LED color. The hardware layer converts this plain value
/// into whatever triple type its driver crate expects.
#[derive(Clone, Copy, PartialEq, Eq, Structural, Debug)]
pub struct Rgb {
    pub r: u8,
    pub g: u8,
    pub b: u8,
}

/// Background (unlit) color index.
pub const BLACK_IDX: u8 = 0;

/// Color index of the player tank and the score digits.
pub const GREEN_IDX: u8 = 1;

/// Color index of missiles.
pub const RED_IDX: u8 = 2;

/// Color index of the score delimiter and the life markers.
pub const PINK_IDX: u8 = 3;

/// Color index of enemy tanks.
pub const BRICK_IDX: u8 = 4;

/// Number of entries in the palette; every frame-buffer cell stays below it.
pub const COLORS_LEN: u8 = 8;

/// The palette table: the RGB triple behind each color index.
pub open spec fn spec_color(idx: int) -> Rgb {
    if idx == 0 {
        Rgb { r: 0, g: 0, b: 0 }
    } else if idx == 1 {
        Rgb { r: 0, g: 160, b: 0 }
    } else if idx == 2 {
        Rgb { r: 160, g: 0, b: 0 }
    } else if idx == 3 {
        Rgb { r: 160, g: 32, b: 96 }
    } else if idx == 4 {
        Rgb { r: 150, g: 75, b: 30 }
    } else if idx == 5 {
        Rgb { r: 0, g: 0, b: 160 }
    } else if idx == 6 {
        Rgb { r: 160, g: 160, b: 0 }
    } else {
        Rgb { r: 120, g: 120, b: 120 }
    }
}

/// Looks a color index up in the palette.
pub fn color_of(idx: u8) -> (c: Rgb)
    requires
        idx < COLORS_LEN,
    ensures
        c == spec_color(idx as int),
{
    if idx == 0 {
        Rgb { r: 0, g: 0, b: 0 }
    } else if idx == 1 {
        Rgb { r: 0, g: 160, b: 0 }
    } else if idx == 2 {
        Rgb { r: 160, g: 0, b: 0 }
    } else if idx == 3 {
        Rgb { r: 160, g: 32, b: 96 }
    } else if idx == 4 {
        Rgb { r: 150, g: 75, b: 30 }
    } else if idx == 5 {
        Rgb { r: 0, g: 0, b: 160 }
    } else if idx == 6 {
        Rgb { r: 160, g: 160, b: 0 }
    } else {
        Rgb { r: 120, g: 120, b: 120 }
    }
}

} // verus!
