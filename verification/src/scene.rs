use vstd::prelude::*;

verus! {

/// The closed set of light sources a scene may hold. An ambient light shines
/// everywhere with no direction; a point light shines from a position; a
/// directional light shines along a fixed direction from infinitely far away.
#[derive(Clone, Copy, PartialEq, Eq, Structural, Debug)]
pub enum LightKind {
    Ambient,
    Point,
    Directional,
}

} // verus!
