//! The units of the simulation and the sizes and speeds of its pieces.

use vstd::prelude::*;

verus! {

/// One pixel, in units of length.
pub const PIXEL: i64 = 1_000_000_000;

/// The width at which a bat is drawn.
pub const BAT_WIDTH: i64 = 10_000_000_000;

/// The width of the strip of a bat that the ball can touch.
pub const BAT_CONTACT_WIDTH: i64 = 1_000_000_000;

/// The height of a bat.
pub const BAT_HEIGHT: i64 = 150_000_000_000;

/// Half the height of a bat.
pub const BAT_HALF_HEIGHT: i64 = 75_000_000_000;

/// The speed at which a bat moves while one of its keys is held.
pub const BAT_SPEED: i64 = 800_000;

/// The radius of the ball.
pub const BALL_RADIUS: i64 = 15_000_000_000;

/// The side of the square that bounds the ball.
pub const BALL_SIDE: i64 = 30_000_000_000;

/// The speed at which a ball is served.
pub const BALL_SPEED: i64 = 700_000;

/// The distance of each bat from its edge of the screen.
pub const BAT_INSET: i64 = 50_000_000_000;

/// The largest coordinate and the largest screen dimension. Positions that
/// would pass it stop there.
pub const POSITION_LIMIT: i64 = 0x1000_0000_0000_0000;

/// The largest speed of a ball.
pub const SPEED_LIMIT: i64 = 0x1000_0000;

/// Each coordinate of a serve's direction is drawn between minus this and this.
pub const SAMPLE_SPAN: i32 = 1_000_000;

/// How many times a serve draws a direction again after drawing no direction.
pub const SERVE_ATTEMPTS: u32 = 8;

} // verus!
