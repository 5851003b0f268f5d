use vstd::prelude::*;

verus! {

/// Maps an image pixel coordinate `(x, y)` — origin in the top-left corner,
/// `y` growing downward — to a canvas coordinate centered on the middle of a
/// `cw`-by-`ch` canvas with `y` growing upward.
pub fn transform_coord(x: u32, y: u32, cw: i16, ch: i16) -> (r: (i16, i16))
    requires
        0 < cw,
        0 < ch,
        x < cw as u32,
        y < ch as u32,
    ensures
        r.0 == x as int - cw as int / 2,
        r.1 == ch as int / 2 - y as int,
{
    ((x as i16) - (cw / 2), -(y as i16) + (ch / 2))
}

} // verus!
