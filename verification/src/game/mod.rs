//! Game concepts shared by all game modes: tile, item and structure kinds.

use vstd::prelude::*;

pub mod event;
pub mod map;
pub mod classic;
pub mod fog;

verus! {

/// Identifier of a city / region.
pub type CitId = u8;

/// The possibilities of what can be on a given tile
#[derive(Debug, Clone, Copy, PartialEq, Eq, Default, Hash, Structural)]
pub enum ItemKind {
    #[default]
    Safe,
    Mine,
    Decoy,
    Trap,
}

/// The base variant of a map tile
#[derive(Debug, Clone, Copy, PartialEq, Eq, Default, Hash, Structural)]
pub enum TileKind {
    Water,
    Destroyed,
    #[default]
    Regular,
    Fertile,
    FoundationStruct,
    FoundationRoad,
    Forest,
    Mountain,
}

/// Is a structure in-production or completed?
#[derive(Debug, Clone, Copy, PartialEq, Eq, Hash, Structural)]
pub enum ProdState {
    Pending,
    Built,
}

/// All the various structures that can be built
#[derive(Debug, Clone, Copy, PartialEq, Eq, Default, Hash, Structural)]
pub enum StructureKind {
    #[default]
    Road,
    Barricade,
    WatchTower,
    Bridge,
}

/// The gameplay actions that a player can perform on a tile
#[derive(Debug, Clone, Copy, PartialEq, Eq, Hash, Structural)]
pub enum ActionKind {
    Explore,
    Strike,
    Deploy,
    Harvest,
    Smoke,
    Reveal,
    Build,
    Bulldoze,
}

impl ItemKind {
    /// The numeric code of the kind (its position in declaration order).
    pub open spec fn code(self) -> u8 {
        match self {
            ItemKind::Safe => 0,
            ItemKind::Mine => 1,
            ItemKind::Decoy => 2,
            ItemKind::Trap => 3,
        }
    }

    /// The kind that a numeric code stands for, if any.
    pub open spec fn from_code(v: u8) -> Option<ItemKind> {
        if v == 0 {
            Some(ItemKind::Safe)
        } else if v == 1 {
            Some(ItemKind::Mine)
        } else if v == 2 {
            Some(ItemKind::Decoy)
        } else if v == 3 {
            Some(ItemKind::Trap)
        } else {
            None
        }
    }

    /// The numeric code of the kind.
    pub fn to_u8(self) -> (r: u8)
        ensures
            r == self.code(),
    {
        match self {
            ItemKind::Safe => 0,
            ItemKind::Mine => 1,
            ItemKind::Decoy => 2,
            ItemKind::Trap => 3,
        }
    }

    /// The kind that a numeric code stands for, if any.
    pub fn from_u8(v: u8) -> (r: Option<ItemKind>)
        ensures
            r == ItemKind::from_code(v),
    {
        if v == 0 {
            Some(ItemKind::Safe)
        } else if v == 1 {
            Some(ItemKind::Mine)
        } else if v == 2 {
            Some(ItemKind::Decoy)
        } else if v == 3 {
            Some(ItemKind::Trap)
        } else {
            None
        }
    }
}

impl StructureKind {
    /// The numeric code of the kind (its position in declaration order).
    pub open spec fn code(self) -> u8 {
        match self {
            StructureKind::Road => 0,
            StructureKind::Barricade => 1,
            StructureKind::WatchTower => 2,
            StructureKind::Bridge => 3,
        }
    }

    /// The kind that a numeric code stands for, if any.
    pub open spec fn from_code(v: u8) -> Option<StructureKind> {
        if v == 0 {
            Some(StructureKind::Road)
        } else if v == 1 {
            Some(StructureKind::Barricade)
        } else if v == 2 {
            Some(StructureKind::WatchTower)
        } else if v == 3 {
            Some(StructureKind::Bridge)
        } else {
            None
        }
    }

    /// The numeric code of the kind.
    pub fn to_u8(self) -> (r: u8)
        ensures
            r == self.code(),
    {
        match self {
            StructureKind::Road => 0,
            StructureKind::Barricade => 1,
            StructureKind::WatchTower => 2,
            StructureKind::Bridge => 3,
        }
    }

    /// The kind that a numeric code stands for, if any.
    pub fn from_u8(v: u8) -> (r: Option<StructureKind>)
        ensures
            r == StructureKind::from_code(v),
    {
        if v == 0 {
            Some(StructureKind::Road)
        } else if v == 1 {
            Some(StructureKind::Barricade)
        } else if v == 2 {
            Some(StructureKind::WatchTower)
        } else if v == 3 {
            Some(StructureKind::Bridge)
        } else {
            None
        }
    }
}

impl TileKind {
    /// The numeric code of the kind (its position in declaration order).
    pub open spec fn code(self) -> u8 {
        match self {
            TileKind::Water => 0,
            TileKind::Destroyed => 1,
            TileKind::Regular => 2,
            TileKind::Fertile => 3,
            TileKind::FoundationStruct => 4,
            TileKind::FoundationRoad => 5,
            TileKind::Forest => 6,
            TileKind::Mountain => 7,
        }
    }

    /// The kind that a numeric code stands for, if any.
    pub open spec fn from_code(v: u8) -> Option<TileKind> {
        if v == 0 {
            Some(TileKind::Water)
        } else if v == 1 {
            Some(TileKind::Destroyed)
        } else if v == 2 {
            Some(TileKind::Regular)
        } else if v == 3 {
            Some(TileKind::Fertile)
        } else if v == 4 {
            Some(TileKind::FoundationStruct)
        } else if v == 5 {
            Some(TileKind::FoundationRoad)
        } else if v == 6 {
            Some(TileKind::Forest)
        } else if v == 7 {
            Some(TileKind::Mountain)
        } else {
            None
        }
    }

    /// The numeric code of the kind.
    pub fn to_u8(self) -> (r: u8)
        ensures
            r == self.code(),
    {
        match self {
            TileKind::Water => 0,
            TileKind::Destroyed => 1,
            TileKind::Regular => 2,
            TileKind::Fertile => 3,
            TileKind::FoundationStruct => 4,
            TileKind::FoundationRoad => 5,
            TileKind::Forest => 6,
            TileKind::Mountain => 7,
        }
    }

    /// The kind that a numeric code stands for, if any.
    pub fn from_u8(v: u8) -> (r: Option<TileKind>)
        ensures
            r == TileKind::from_code(v),
    {
        if v == 0 {
            Some(TileKind::Water)
        } else if v == 1 {
            Some(TileKind::Destroyed)
        } else if v == 2 {
            Some(TileKind::Regular)
        } else if v == 3 {
            Some(TileKind::Fertile)
        } else if v == 4 {
            Some(TileKind::FoundationStruct)
        } else if v == 5 {
            Some(TileKind::FoundationRoad)
        } else if v == 6 {
            Some(TileKind::Forest)
        } else if v == 7 {
            Some(TileKind::Mountain)
        } else {
            None
        }
    }

    /// Can a player own a tile of this kind? Every kind but water.
    pub fn ownable(self) -> (r: bool)
        ensures
            r == (self != TileKind::Water),
    {
        match self {
            TileKind::Water => false,
            _ => true,
        }
    }

    /// Is this kind land that can be walked and built on?
    pub fn is_land(self) -> (r: bool)
        ensures
            r == (self == TileKind::Regular || self == TileKind::Fertile || self == TileKind::Destroyed
                || self == TileKind::FoundationRoad),
    {
        match self {
            TileKind::Water | TileKind::Forest | TileKind::Mountain | TileKind::FoundationStruct => false,
            TileKind::Regular | TileKind::Fertile | TileKind::Destroyed | TileKind::FoundationRoad => true,
        }
    }

    /// Is this kind part of a resource cluster (forest or mountain)?
    pub fn is_rescluster(self) -> (r: bool)
        ensures
            r == (self == TileKind::Forest || self == TileKind::Mountain),
    {
        match self {
            TileKind::Forest | TileKind::Mountain => true,
            TileKind::Water | TileKind::Regular | TileKind::Fertile | TileKind::Destroyed
            | TileKind::FoundationRoad | TileKind::FoundationStruct => false,
        }
    }

    /// Can resources be harvested from this kind?
    pub fn is_harvestable(self) -> (r: bool)
        ensures
            r == (self == TileKind::Regular || self == TileKind::Fertile || self == TileKind::Forest
                || self == TileKind::Mountain),
    {
        match self {
            TileKind::Water | TileKind::Destroyed | TileKind::FoundationRoad | TileKind::FoundationStruct => false,
            TileKind::Regular | TileKind::Fertile | TileKind::Forest | TileKind::Mountain => true,
        }
    }
}

/// The item kinds in the order of their declaration.
pub open spec fn item_kinds_declared() -> Seq<ItemKind> {
    seq![ItemKind::Safe, ItemKind::Mine, ItemKind::Decoy, ItemKind::Trap]
}

/// The numeric code of an item kind is its place in the declaration (safe
/// 0, mine 1, decoy 2, trap 3), every code below 4 stands for the kind
/// declared there, and no other code stands for a kind.
pub proof fn lemma_item_kind_code_is_declaration_index()
    ensures
        forall|i: int| 0 <= i < 4 ==> (#[trigger] item_kinds_declared()[i]).code() == i,
        forall|i: int| 0 <= i < 4 ==> ItemKind::from_code(i as u8) == Some(#[trigger] item_kinds_declared()[i]),
        forall|v: u8| v >= 4 ==> #[trigger] ItemKind::from_code(v) is None,
        forall|k: ItemKind| #[trigger] item_kinds_declared().contains(k),
{
    assert(item_kinds_declared()[0] == ItemKind::Safe);
    assert(item_kinds_declared()[1] == ItemKind::Mine);
    assert(item_kinds_declared()[2] == ItemKind::Decoy);
    assert(item_kinds_declared()[3] == ItemKind::Trap);
    assert forall|k: ItemKind| #[trigger] item_kinds_declared().contains(k) by {
        match k {
            ItemKind::Safe => assert(item_kinds_declared()[0] == k),
            ItemKind::Mine => assert(item_kinds_declared()[1] == k),
            ItemKind::Decoy => assert(item_kinds_declared()[2] == k),
            ItemKind::Trap => assert(item_kinds_declared()[3] == k),
        }
    }
}

/// Every item kind is recovered from its numeric code.
pub proof fn lemma_item_kind_code_roundtrip(k: ItemKind)
    ensures
        ItemKind::from_code(k.code()) == Some(k),
{
}

/// Every structure kind is recovered from its numeric code.
pub proof fn lemma_structure_kind_code_roundtrip(k: StructureKind)
    ensures
        StructureKind::from_code(k.code()) == Some(k),
{
}

/// Every tile kind is recovered from its numeric code.
pub proof fn lemma_tile_kind_code_roundtrip(k: TileKind)
    ensures
        TileKind::from_code(k.code()) == Some(k),
{
}

} // verus!
