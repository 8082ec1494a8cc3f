//! The random draws the game makes, taken from the generator that the
//! windowing library shares with the rest of the program.

use vstd::prelude::*;
use macroquad::rand::ChooseRandom;
use crate::geometry::Color;

verus! {

/// Draws a whole number with `macroquad::rand::gen_range`. The generator
/// scales a fraction in `[0, 1)` onto the span from `low` to `high` and drops
/// what is behind the point, so the draw lies between the two bounds; which
/// number comes out depends on the generator's state, and nothing is said
/// about it.
#[verifier::external_body]
pub(crate) fn draw_between(low: i32, high: i32) -> (r: i32)
    ensures
        low <= high ==> low <= r <= high,
{
    macroquad::rand::gen_range(low, high)
}

/// Picks a colour with `macroquad::rand::ChooseRandom::choose`, which draws
/// an index and looks it up in the slice: the pick, if there is one, is an
/// element of `palette`.
#[verifier::external_body]
pub(crate) fn pick_color(palette: &Vec<Color>) -> (r: Option<Color>)
    ensures
        r matches Some(c) ==> palette@.contains(c),
{
    palette.choose().copied()
}

} // verus!
