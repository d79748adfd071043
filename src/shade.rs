//! How a tile is shown.
use vstd::prelude::*;

verus! {

/// The four ways a tile can be coloured: lit or dark, wall or ground.
#[derive(Clone, Copy, Debug, PartialEq, Eq, Structural)]
pub enum Shade {
    DarkWall,
    DarkGround,
    LightWall,
    LightGround,
}

/// The shade of a tile that is `visible` or not and is a `wall` (blocks
/// sight) or not.
pub fn shade_of(visible: bool, wall: bool) -> (r: Shade)
    ensures
        r == (if visible {
            if wall {
                Shade::LightWall
            } else {
                Shade::LightGround
            }
        } else {
            if wall {
                Shade::DarkWall
            } else {
                Shade::DarkGround
            }
        }),
{
    match (visible, wall) {
        (false, true) => Shade::DarkWall,
        (false, false) => Shade::DarkGround,
        (true, true) => Shade::LightWall,
        (true, false) => Shade::LightGround,
    }
}

} // verus!
