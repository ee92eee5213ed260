//! Rectangles, velocities and the screen, each with its mathematical model.

use vstd::prelude::*;
use crate::roots::nearest_root;
use crate::units::POSITION_LIMIT;

verus! {

/// The model of a rectangle: its top-left corner, width and height. The
/// vertical axis points down.
pub struct Region {
    pub x: int,
    pub y: int,
    pub w: int,
    pub h: int,
}

impl Region {
    pub open spec fn left(self) -> int {
        self.x
    }

    pub open spec fn right(self) -> int {
        self.x + self.w
    }

    pub open spec fn top(self) -> int {
        self.y
    }

    pub open spec fn bottom(self) -> int {
        self.y + self.h
    }

    /// The two rectangles share a point; touching edges count.
    pub open spec fn overlaps(self, other: Region) -> bool {
        &&& self.left() <= other.right()
        &&& self.right() >= other.left()
        &&& self.top() <= other.bottom()
        &&& self.bottom() >= other.top()
    }

    /// The same rectangle with its top edge at `y`.
    pub open spec fn at_height(self, y: int) -> Region {
        Region { x: self.x, y: y, w: self.w, h: self.h }
    }
}

/// The model of a velocity: its two components.
pub struct Motion {
    pub x: int,
    pub y: int,
}

impl Motion {
    /// The square of the velocity's magnitude.
    pub open spec fn speed_squared(self) -> nat {
        (self.x * self.x + self.y * self.y) as nat
    }

    /// The velocity's magnitude, rounded to the nearest unit of speed.
    pub open spec fn speed(self) -> nat {
        nearest_root(self.speed_squared())
    }

    /// The same velocity with its vertical component reversed.
    pub open spec fn mirrored(self) -> Motion {
        Motion { x: self.x, y: -self.y }
    }
}

/// `v`, or the nearest coordinate that a position can have.
pub open spec fn saturated(v: int) -> int {
    if v < -POSITION_LIMIT {
        -POSITION_LIMIT
    } else if v > POSITION_LIMIT {
        POSITION_LIMIT as int
    } else {
        v
    }
}

/// An axis-aligned rectangle.
#[derive(Clone, Copy, Debug, PartialEq, Eq, Structural)]
pub struct Rect {
    pub x: i64,
    pub y: i64,
    pub w: i64,
    pub h: i64,
}

impl View for Rect {
    type V = Region;

    open spec fn view(&self) -> Region {
        Region { x: self.x as int, y: self.y as int, w: self.w as int, h: self.h as int }
    }
}

impl Rect {
    /// Whether the two rectangles share a point; touching edges count.
    pub fn overlaps(&self, other: &Rect) -> (hit: bool)
        ensures
            hit == self@.overlaps(other@),
    {
        let left: i128 = self.x as i128;
        let right: i128 = self.x as i128 + self.w as i128;
        let top: i128 = self.y as i128;
        let bottom: i128 = self.y as i128 + self.h as i128;
        let other_left: i128 = other.x as i128;
        let other_right: i128 = other.x as i128 + other.w as i128;
        let other_top: i128 = other.y as i128;
        let other_bottom: i128 = other.y as i128 + other.h as i128;
        left <= other_right && right >= other_left && top <= other_bottom && bottom >= other_top
    }
}

/// A velocity, in units of speed along each axis.
#[derive(Clone, Copy, Debug, PartialEq, Eq, Structural)]
pub struct Velocity {
    pub x: i64,
    pub y: i64,
}

impl View for Velocity {
    type V = Motion;

    open spec fn view(&self) -> Motion {
        Motion { x: self.x as int, y: self.y as int }
    }
}

/// The size of the playing field.
#[derive(Clone, Copy, Debug, PartialEq, Eq, Structural)]
pub struct Screen {
    pub width: i64,
    pub height: i64,
}

impl Screen {
    /// Both dimensions are positive and within the limit of positions.
    pub open spec fn wf(self) -> bool {
        &&& 0 < self.width <= POSITION_LIMIT
        &&& 0 < self.height <= POSITION_LIMIT
    }

    /// A screen of the given size, where both dimensions are positive and
    /// within the limit of positions.
    pub fn new(width: i64, height: i64) -> (made: Option<Screen>)
        ensures
            made.is_some() <==> (Screen { width, height }).wf(),
            made.is_some() ==> made.unwrap() == (Screen { width, height }),
    {
        if 0 < width && width <= POSITION_LIMIT && 0 < height && height <= POSITION_LIMIT {
            Some(Screen { width, height })
        } else {
            None
        }
    }
}

} // verus!
