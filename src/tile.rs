use vstd::prelude::*;

use crate::hex::Hex;

verus! {

/// The payload that a map attaches to one coordinate.
#[derive(Clone, Copy, Debug, PartialEq, Eq, Structural)]
pub struct Tile {
    pub node_index: u32,
    pub hex: Hex,
    pub population: u8,
    pub selected: bool,
}

/// A fresh tile at `hex`: no population, not selected, node index 0.
pub open spec fn fresh_tile(hex: Hex) -> Tile {
    Tile { node_index: 0, hex, population: 0, selected: false }
}

impl Tile {
    /// A fresh tile at `hex`.
    pub fn new(hex: Hex) -> (t: Tile)
        ensures
            t == fresh_tile(hex),
    {
        Tile { hex, population: 0, selected: false, node_index: 0 }
    }
}

} // verus!
