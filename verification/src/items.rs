//! Collectible items and their mapping back to tiles.

use vstd::prelude::*;

use crate::tiles::Tile;

verus! {

/// A collectible unit held in the inventory, potentially placeable back into
/// the world as a tile.
#[derive(Clone, Copy, Debug, PartialEq, Eq, Hash, Structural)]
pub enum Item {
    Wall,
    Wood,
}

/// The display name of an item.
pub open spec fn spec_item_name(it: Item) -> Seq<char> {
    match it {
        Item::Wall => "wall"@,
        Item::Wood => "wood"@,
    }
}

/// The tile an item becomes when placed, where it is placeable.
pub open spec fn spec_to_tile(it: Item) -> Option<Tile> {
    match it {
        Item::Wall => Some(Tile::WallFull),
        Item::Wood => Some(Tile::Wood(5)),
    }
}

impl Item {
    /// The display name of this item.
    pub fn name(&self) -> (r: String)
        ensures
            r@ == spec_item_name(*self),
    {
        match self {
            Item::Wall => "wall".to_owned(),
            Item::Wood => "wood".to_owned(),
        }
    }

    /// The tile this item becomes when placed; none where the item is not
    /// placeable.
    pub fn to_tile(&self) -> (r: Option<Tile>)
        ensures
            r == spec_to_tile(*self),
    {
        match self {
            Item::Wall => Some(Tile::WallFull),
            Item::Wood => Some(Tile::Wood(5)),
        }
    }
}

} // verus!
