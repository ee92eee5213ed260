//! The one source of chance: the generator that `macroquad` shares with the
//! whole program.

use vstd::prelude::*;

verus! {

/// Draws a whole number with `macroquad::rand::gen_range`.
///
/// Not proved. That function scales a fraction from zero up to, but not
/// including, one to the span from `low` to `high` and cuts off what stands
/// behind the point; so what it gives lies between the two bounds, both
/// included, wherever `low` is not above `high`. Nothing is claimed about
/// which number comes: the generator's state decides.
#[verifier::external_body]
pub(crate) fn draw_between(low: i32, high: i32) -> (drawn: i32)
    ensures
        low <= high ==> low <= drawn <= high,
{
    macroquad::rand::gen_range(low, high)
}

} // verus!
