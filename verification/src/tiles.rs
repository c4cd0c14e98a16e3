//! Tiles of the map, the terrain-classification rule, and what digging a tile
//! produces.

use vstd::prelude::*;

use crate::items::Item;

verus! {

/// One cell's terrain or obstacle state.
#[derive(Clone, Copy, Debug, PartialEq, Eq, Hash, Structural)]
pub enum Tile {
    Empty,
    WallFull,
    WallHalf,
    WallLow,
    Wood(u8),
}

/// The outcome of digging a tile once: a weaker tile, a collectible item, or
/// nothing.
#[derive(Clone, Copy, Debug, PartialEq, Eq, Structural)]
pub enum BreakResult {
    Tile(Tile),
    Item(Item),
    CannotBeBroken,
}

/// The breakdown rule: what one dig action against a tile produces.
pub open spec fn spec_breaks_into(t: Tile) -> BreakResult {
    match t {
        Tile::WallFull => BreakResult::Tile(Tile::WallHalf),
        Tile::WallHalf => BreakResult::Tile(Tile::WallLow),
        Tile::WallLow => BreakResult::Item(Item::Wall),
        Tile::Empty => BreakResult::CannotBeBroken,
        Tile::Wood(n) => if n == 0 {
            BreakResult::Item(Item::Wood)
        } else {
            BreakResult::Tile(Tile::Wood((n - 1) as u8))
        },
    }
}

/// The display name of a tile.
pub open spec fn spec_tile_name(t: Tile) -> Seq<char> {
    match t {
        Tile::Empty => "empty"@,
        Tile::WallFull => "wall"@,
        Tile::WallHalf => "broken wall"@,
        Tile::WallLow => "very broken wall"@,
        Tile::Wood(_) => "wood"@,
    }
}

/// Samples below this fraction of the normalized noise range, in millionths,
/// classify as solid wall.
pub const WALL_THRESHOLD_MILLIONTHS: i64 = 300_000;

/// The terrain rule: classifies a position's default tile from the coherent
/// noise sample taken there, normalized to the unit range and expressed in
/// millionths. Sampling the noise is the embedding program's concern; the
/// classification is the engine's.
pub open spec fn spec_tile_from_noise(sample_millionths: int) -> Tile {
    if sample_millionths < WALL_THRESHOLD_MILLIONTHS as int {
        Tile::WallFull
    } else {
        Tile::Empty
    }
}

/// Classifies the default tile of a position from its normalized noise
/// sample, given in millionths.
pub fn tile_from_noise(sample_millionths: i64) -> (t: Tile)
    ensures
        t == spec_tile_from_noise(sample_millionths as int),
{
    if sample_millionths < WALL_THRESHOLD_MILLIONTHS {
        Tile::WallFull
    } else {
        Tile::Empty
    }
}

impl Tile {
    /// What one dig action against this tile produces.
    pub fn breaks_into(self) -> (r: BreakResult)
        ensures
            r == spec_breaks_into(self),
    {
        match self {
            Tile::WallFull => BreakResult::Tile(Tile::WallHalf),
            Tile::WallHalf => BreakResult::Tile(Tile::WallLow),
            Tile::WallLow => BreakResult::Item(Item::Wall),
            Tile::Empty => BreakResult::CannotBeBroken,
            Tile::Wood(0) => BreakResult::Item(Item::Wood),
            Tile::Wood(n) => BreakResult::Tile(Tile::Wood(n - 1)),
        }
    }

    /// The display name of this tile.
    pub fn name(&self) -> (r: &'static str)
        ensures
            r@ == spec_tile_name(*self),
    {
        match self {
            Tile::Empty => "empty",
            Tile::WallFull => "wall",
            Tile::WallHalf => "broken wall",
            Tile::WallLow => "very broken wall",
            Tile::Wood(_) => "wood",
        }
    }
}

} // verus!
