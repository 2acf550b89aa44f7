//! Integer 2D vector, used both as a cell position and as a unit direction.
use vstd::prelude::*;

verus! {

/// A 2D integer vector. As a position it may hold any value (playfield
/// checks clamp it later); as a direction it is one of the four cardinal
/// unit vectors or zero.
#[derive(Clone, Copy, PartialEq, Eq, Structural, Debug)]
pub struct Dot {
    pub x: i8,
    pub y: i8,
}

/// The sign of a coordinate, clamped to `{-1, 0, 1}`.
pub open spec fn spec_sign(v: i8) -> i8 {
    if v > 0 {
        1i8
    } else if v < 0 {
        -1i8
    } else {
        0i8
    }
}

impl Dot {
    pub open spec fn spec_is_zero(self) -> bool {
        self.x == 0 && self.y == 0
    }

    /// True when the vector is one of the four cardinal unit vectors.
    pub open spec fn spec_is_cardinal(self) -> bool {
        (self.x == 0 && (self.y == 1 || self.y == -1)) || (self.y == 0 && (self.x == 1 || self.x
            == -1))
    }

    /// The direction a raw joystick delta maps to: each axis is clamped
    /// independently to `{-1, 0, 1}`; if both end up non-zero, the
    /// horizontal axis wins the tie and the vertical one is dropped.
    pub open spec fn spec_to_direction(self) -> Dot {
        if spec_sign(self.x) != 0 {
            Dot { x: spec_sign(self.x), y: 0 }
        } else {
            Dot { x: 0, y: spec_sign(self.y) }
        }
    }

    pub fn new(x: i8, y: i8) -> (d: Dot)
        ensures
            d == (Dot { x, y }),
    {
        Dot { x, y }
    }

    pub fn is_zero(&self) -> (r: bool)
        ensures
            r == self.spec_is_zero(),
    {
        self.x == 0 && self.y == 0
    }

    /// Translates the position by `d`; the caller keeps the sum inside
    /// the `i8` range.
    pub fn move_by(&self, d: Dot) -> (r: Dot)
        requires
            i8::MIN <= self.x + d.x <= i8::MAX,
            i8::MIN <= self.y + d.y <= i8::MAX,
        ensures
            r.x == self.x + d.x,
            r.y == self.y + d.y,
    {
        Dot { x: self.x + d.x, y: self.y + d.y }
    }

    /// Snaps a raw joystick delta to one of the four cardinal unit
    /// vectors or zero, horizontal axis taking priority on ties.
    pub fn to_direction(&self) -> (r: Dot)
        ensures
            r == self.spec_to_direction(),
            r.spec_is_zero() || r.spec_is_cardinal(),
    {
        let sx: i8 = if self.x > 0 {
            1
        } else if self.x < 0 {
            -1
        } else {
            0
        };
        let sy: i8 = if self.y > 0 {
            1
        } else if self.y < 0 {
            -1
        } else {
            0
        };
        if sx != 0 {
            Dot { x: sx, y: 0 }
        } else {
            Dot { x: 0, y: sy }
        }
    }
}

} // verus!
