use vstd::prelude::*;
use crate::level::Tile;
use crate::player::Point;

verus! {

/// Sprite of a ground tile with no ground on either side.
pub const GROUND_ISOLATED: usize = 8;

/// Sprite of a ground tile with ground on its right only.
pub const GROUND_LEFT_EDGE: usize = 14;

/// Sprite of a ground tile with ground on its left only.
pub const GROUND_RIGHT_EDGE: usize = 0;

/// Sprite of a ground tile with ground on both sides.
pub const GROUND_INTERIOR: usize = 7;

/// A ground tile placed in the level, with the sprite it is drawn with.
#[derive(Clone, Copy, Debug, PartialEq, Eq, Structural)]
pub struct GroundTile {
    pub position: Point,
    pub index: usize,
}

/// Whether `line` holds ground at `j`; a place outside the row holds none.
pub open spec fn ground_at(line: Seq<Tile>, j: int) -> bool {
    0 <= j < line.len() && line[j] == Tile::Ground
}

/// The sprite of a ground tile, from whether ground lies on its left and on its right.
pub open spec fn ground_variant(left: bool, right: bool) -> usize {
    if !left && !right {
        GROUND_ISOLATED
    } else if !left {
        GROUND_LEFT_EDGE
    } else if !right {
        GROUND_RIGHT_EDGE
    } else {
        GROUND_INTERIOR
    }
}

/// The sprite for the ground tile at `i` in `line`, chosen by its neighbours.
pub fn ground_tile_index(line: &[Tile], i: usize) -> (r: usize)
    requires
        i < line@.len(),
    ensures
        r == ground_variant(ground_at(line@, i - 1), ground_at(line@, i + 1)),
        !ground_at(line@, i - 1) && !ground_at(line@, i + 1) ==> r == GROUND_ISOLATED,
        ground_at(line@, i - 1) && !ground_at(line@, i + 1) ==> r == GROUND_RIGHT_EDGE,
        !ground_at(line@, i - 1) && ground_at(line@, i + 1) ==> r == GROUND_LEFT_EDGE,
        ground_at(line@, i - 1) && ground_at(line@, i + 1) ==> r == GROUND_INTERIOR,
{
    let left = i > 0 && line[i - 1] == Tile::Ground;
    let right = i + 1 < line.len() && line[i + 1] == Tile::Ground;
    if !left && !right {
        GROUND_ISOLATED
    } else if !left {
        GROUND_LEFT_EDGE
    } else if !right {
        GROUND_RIGHT_EDGE
    } else {
        GROUND_INTERIOR
    }
}

} // verus!
