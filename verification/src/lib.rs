//! A two-player Pong simulation in fixed-point arithmetic.
//!
//! Lengths are whole numbers of a billionth of a pixel, speeds are whole
//! thousandths of a pixel per second and time steps are whole microseconds,
//! so that a speed times a time step is a length with nothing rounded away.
//! Every function but one is proved against a mathematical model of the
//! game, and none of them panics or overflows. The one that is not draws a
//! number from the generator of `macroquad`; only its bounds are taken on
//! trust.

pub mod angles;
pub mod ball;
pub mod bat;
mod chance;
pub mod game;
pub mod geometry;
pub mod roots;
pub mod units;
