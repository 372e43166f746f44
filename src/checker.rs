//! The checkerboard pattern of a plane, over integer cell coordinates.
//!
//! A point's offset from the plane's anchor splits into a component along the
//! plane's orientation axis and a residual; the rounded magnitudes of the two
//! are the point's cell coordinates.

use vstd::prelude::*;

verus! {

/// Which of a checkerboard plane's two colours a cell shows.
#[derive(Clone, Copy, Debug, PartialEq, Eq, Structural)]
pub enum Tile {
    /// The plane's own colour.
    Base,
    /// The pattern's second colour.
    Second,
}

/// A cell shows the base colour exactly when its coordinates sum to an even number.
pub open spec fn tile_of(u: int, v: int) -> Tile {
    if (u + v) % 2 == 0 {
        Tile::Base
    } else {
        Tile::Second
    }
}

/// The tile of cell `(u, v)`.
pub fn tile_at(u: u64, v: u64) -> (r: Tile)
    ensures
        r == tile_of(u as int, v as int),
{
    if (u % 2 + v % 2) % 2 == 0 {
        Tile::Base
    } else {
        Tile::Second
    }
}

/// The pattern alternates: moving one cell along either axis swaps the tile.
pub proof fn lemma_tile_alternates(u: int, v: int)
    requires
        u >= 0,
        v >= 0,
    ensures
        tile_of(u + 1, v) != tile_of(u, v),
        tile_of(u, v + 1) != tile_of(u, v),
{
}

} // verus!
