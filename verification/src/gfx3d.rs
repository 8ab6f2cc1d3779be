//! Choosing the 3D asset of a map tile: which model kind, which tileset
//! variant (from the tile's neighbours), and which rotation of it.

use vstd::prelude::*;
use rand::Rng;
use crate::game::{StructureKind, TileKind};

verus! {

/// Which 3D asset kind a tile uses.
#[derive(Debug, Clone, Copy, PartialEq, Eq, Hash, Structural)]
pub enum Ass3dTileKind {
    BadTile,
    Water,
    Regular,
    Fertile,
    Forest,
    Mountain,
    Destroyed,
    HarvestedFertile,
    HarvestedRegular,
    HarvestedForest,
    HarvestedMountain,
    Road,
    Cit,
    Tower,
    WallMid,
    Bridge,
}

/// Which tileset variant a tile uses: how many of its neighbours join it,
/// and in which arrangement.
#[derive(Debug, Clone, Copy, PartialEq, Eq, Hash, Structural)]
pub enum Ass3dTileVariant {
    V0,
    V1,
    V2A,
    V2B,
    V2C,
    V3A,
    V3B,
    V3C,
    V3D,
    V4A,
    V4B,
    V4C,
    V5,
    V6,
}

/// The 3D asset chosen for a tile.
#[derive(Debug, Clone, Copy, PartialEq, Eq)]
pub struct TileAss3d {
    /// What 3D asset tile kind the tile is using.
    pub kind: Ass3dTileKind,
    /// What tileset variant.
    pub variant: Ass3dTileVariant,
    /// Rotation to use, in sixths of a turn.
    pub rotation: u8,
    /// Neighbours for the tileset (variant and rotation are derived from this).
    pub neighmask: u8,
    /// Which alternative model was picked for each level of detail, kept for
    /// consistency when switching between them.
    pub subvariant: [u8; 3],
}

/// What stands on a tile, as far as choosing its asset goes.
#[derive(Debug, Clone, Copy, PartialEq, Eq, Structural)]
pub enum TileGentKind {
    /// A city.
    Cit,
    /// A structure.
    Structure(StructureKind),
}

/// The asset kind of a tile: what stands on it first, then its terrain.
pub open spec fn ass3d_kind_of(kind: TileKind, gent: Option<TileGentKind>) -> Ass3dTileKind {
    match (kind, gent) {
        (_, Some(TileGentKind::Cit)) => Ass3dTileKind::Cit,
        (_, Some(TileGentKind::Structure(StructureKind::Barricade))) => Ass3dTileKind::WallMid,
        (_, Some(TileGentKind::Structure(StructureKind::Bridge))) => Ass3dTileKind::Bridge,
        (_, Some(TileGentKind::Structure(StructureKind::WatchTower))) => Ass3dTileKind::Tower,
        (TileKind::Water, _) => Ass3dTileKind::Water,
        (TileKind::Fertile, _) => Ass3dTileKind::Fertile,
        (TileKind::Destroyed, _) => Ass3dTileKind::Destroyed,
        (TileKind::Mountain, _) => Ass3dTileKind::Mountain,
        (TileKind::Forest, _) => Ass3dTileKind::Forest,
        (TileKind::FoundationRoad, _) => Ass3dTileKind::Road,
        (TileKind::Regular, _) => Ass3dTileKind::Regular,
        _ => Ass3dTileKind::BadTile,
    }
}

/// Whether a neighbour of the given terrain joins a tile of the given asset
/// kind in its tileset.
pub open spec fn neigh_joins(k: Ass3dTileKind, n: TileKind) -> bool {
    match k {
        Ass3dTileKind::Water => n == TileKind::Water,
        Ass3dTileKind::Regular => n != TileKind::Water && n != TileKind::Mountain,
        Ass3dTileKind::Fertile => n != TileKind::Water,
        Ass3dTileKind::Forest => n == TileKind::Forest,
        Ass3dTileKind::Mountain => n == TileKind::Mountain,
        Ass3dTileKind::Destroyed => n != TileKind::Water,
        Ass3dTileKind::HarvestedFertile => n != TileKind::Water,
        Ass3dTileKind::HarvestedRegular => n != TileKind::Water && n != TileKind::Mountain,
        Ass3dTileKind::HarvestedForest => n == TileKind::Forest,
        Ass3dTileKind::HarvestedMountain => n == TileKind::Mountain,
        Ass3dTileKind::Road => n == TileKind::FoundationRoad,
        Ass3dTileKind::Bridge => n != TileKind::Water && n != TileKind::Mountain && n != TileKind::Forest,
        _ => false,
    }
}

/// `2^i` for `0 <= i <= 6`.
pub open spec fn p2(i: int) -> nat {
    if i <= 0 { 1 } else if i == 1 { 2 } else if i == 2 { 4 } else if i == 3 { 8 } else if i == 4 { 16 } else if i == 5 { 32 } else { 64 }
}

/// Bit `i` of a mask.
pub open spec fn has_bit(m: nat, i: int) -> bool {
    (m / p2(i)) % 2 == 1
}

/// The neighbour mask of a tile: bit `i` is set when neighbour `i` joins it.
pub open spec fn neighmask_of(k: Ass3dTileKind, neighs: [TileKind; 6]) -> nat {
    (if neigh_joins(k, neighs[0]) { 1nat } else { 0 })
        + (if neigh_joins(k, neighs[1]) { 2nat } else { 0 })
        + (if neigh_joins(k, neighs[2]) { 4nat } else { 0 })
        + (if neigh_joins(k, neighs[3]) { 8nat } else { 0 })
        + (if neigh_joins(k, neighs[4]) { 16nat } else { 0 })
        + (if neigh_joins(k, neighs[5]) { 32nat } else { 0 })
}

/// The tileset variant for a neighbour mask, and the mask of the rotations
/// of it that may be used.
pub open spec fn tileset_lut(mask: u8) -> (Ass3dTileVariant, u8) {
    match mask {
        0 => (Ass3dTileVariant::V0, 0b111111),
        1 => (Ass3dTileVariant::V1, 0b000001),
        2 => (Ass3dTileVariant::V1, 0b000010),
        3 => (Ass3dTileVariant::V2A, 0b000001),
        4 => (Ass3dTileVariant::V1, 0b000100),
        5 => (Ass3dTileVariant::V2B, 0b000001),
        6 => (Ass3dTileVariant::V2A, 0b000010),
        7 => (Ass3dTileVariant::V3A, 0b000001),
        8 => (Ass3dTileVariant::V1, 0b001000),
        9 => (Ass3dTileVariant::V2C, 0b001001),
        10 => (Ass3dTileVariant::V2B, 0b000010),
        11 => (Ass3dTileVariant::V3B, 0b000001),
        12 => (Ass3dTileVariant::V2A, 0b000100),
        13 => (Ass3dTileVariant::V3C, 0b000100),
        14 => (Ass3dTileVariant::V3A, 0b000010),
        15 => (Ass3dTileVariant::V4A, 0b000001),
        16 => (Ass3dTileVariant::V1, 0b010000),
        17 => (Ass3dTileVariant::V2B, 0b010000),
        18 => (Ass3dTileVariant::V2C, 0b010010),
        19 => (Ass3dTileVariant::V3C, 0b000001),
        20 => (Ass3dTileVariant::V2B, 0b000100),
        21 => (Ass3dTileVariant::V3D, 0b010101),
        22 => (Ass3dTileVariant::V3B, 0b000010),
        23 => (Ass3dTileVariant::V4B, 0b000001),
        24 => (Ass3dTileVariant::V2A, 0b001000),
        25 => (Ass3dTileVariant::V3B, 0b001000),
        26 => (Ass3dTileVariant::V3C, 0b001000),
        27 => (Ass3dTileVariant::V4C, 0b001001),
        28 => (Ass3dTileVariant::V3A, 0b000100),
        29 => (Ass3dTileVariant::V4B, 0b000100),
        30 => (Ass3dTileVariant::V4A, 0b000010),
        31 => (Ass3dTileVariant::V5, 0b000001),
        32 => (Ass3dTileVariant::V1, 0b100000),
        33 => (Ass3dTileVariant::V2A, 0b100000),
        34 => (Ass3dTileVariant::V2B, 0b100000),
        35 => (Ass3dTileVariant::V3A, 0b100000),
        36 => (Ass3dTileVariant::V2C, 0b100100),
        37 => (Ass3dTileVariant::V3B, 0b100000),
        38 => (Ass3dTileVariant::V3C, 0b000010),
        39 => (Ass3dTileVariant::V4A, 0b100000),
        40 => (Ass3dTileVariant::V2B, 0b001000),
        41 => (Ass3dTileVariant::V3C, 0b100000),
        42 => (Ass3dTileVariant::V3D, 0b101010),
        43 => (Ass3dTileVariant::V4B, 0b100000),
        44 => (Ass3dTileVariant::V3B, 0b000100),
        45 => (Ass3dTileVariant::V4C, 0b100100),
        46 => (Ass3dTileVariant::V4B, 0b000010),
        47 => (Ass3dTileVariant::V5, 0b100000),
        48 => (Ass3dTileVariant::V2A, 0b010000),
        49 => (Ass3dTileVariant::V3A, 0b010000),
        50 => (Ass3dTileVariant::V3B, 0b010000),
        51 => (Ass3dTileVariant::V4A, 0b010000),
        52 => (Ass3dTileVariant::V3C, 0b010000),
        53 => (Ass3dTileVariant::V4B, 0b010000),
        54 => (Ass3dTileVariant::V4C, 0b010010),
        55 => (Ass3dTileVariant::V5, 0b010000),
        56 => (Ass3dTileVariant::V3A, 0b001000),
        57 => (Ass3dTileVariant::V4A, 0b001000),
        58 => (Ass3dTileVariant::V4B, 0b001000),
        59 => (Ass3dTileVariant::V5, 0b001000),
        60 => (Ass3dTileVariant::V4A, 0b000100),
        61 => (Ass3dTileVariant::V5, 0b000100),
        62 => (Ass3dTileVariant::V5, 0b000010),
        _ => (Ass3dTileVariant::V6, 0b111111),
    }
}

/// The neighbour pattern of a tileset variant in its unrotated position.
pub open spec fn variant_pattern(v: Ass3dTileVariant) -> nat {
    match v {
        Ass3dTileVariant::V0 => 0,
        Ass3dTileVariant::V1 => 0b000001,
        Ass3dTileVariant::V2A => 0b000011,
        Ass3dTileVariant::V2B => 0b000101,
        Ass3dTileVariant::V2C => 0b001001,
        Ass3dTileVariant::V3A => 0b000111,
        Ass3dTileVariant::V3B => 0b001011,
        Ass3dTileVariant::V3C => 0b010011,
        Ass3dTileVariant::V3D => 0b010101,
        Ass3dTileVariant::V4A => 0b001111,
        Ass3dTileVariant::V4B => 0b010111,
        Ass3dTileVariant::V4C => 0b011011,
        Ass3dTileVariant::V5 => 0b011111,
        Ass3dTileVariant::V6 => 0b111111,
    }
}

/// A six-bit pattern turned by `r` sixths: bit `i` moves to bit `i + r`
/// (mod 6).
pub open spec fn turn6(x: nat, r: int) -> nat {
    ((x * p2(r)) % 64 + x / p2(6 - r)) as nat
}

/// The number of set bits of a mask below bit `r`.
pub open spec fn bits_below(m: nat, r: int) -> nat
    decreases r,
{
    if r <= 0 { 0 } else { bits_below(m, r - 1) + (if has_bit(m, r - 1) { 1nat } else { 0 }) }
}

/// The asset of a tile that holds a city or a structure other than a road
/// shows that city or structure, whatever the terrain: a watch tower is
/// drawn as a tower, a barricade as a wall, a bridge as a bridge. Each of
/// these assets is drawn for that one kind of tile content and no other, so
/// distinct structures never share an asset; a road (or nothing) leaves the
/// terrain's own asset.
pub proof fn lemma_tile_content_assets()
    ensures
        forall|k: TileKind, g: Option<TileGentKind>|
            (ass3d_kind_of(k, g) == Ass3dTileKind::Tower) <==> g == Some(TileGentKind::Structure(StructureKind::WatchTower)),
        forall|k: TileKind, g: Option<TileGentKind>|
            (ass3d_kind_of(k, g) == Ass3dTileKind::WallMid) <==> g == Some(TileGentKind::Structure(StructureKind::Barricade)),
        forall|k: TileKind, g: Option<TileGentKind>|
            (ass3d_kind_of(k, g) == Ass3dTileKind::Bridge) <==> g == Some(TileGentKind::Structure(StructureKind::Bridge)),
        forall|k: TileKind, g: Option<TileGentKind>|
            (ass3d_kind_of(k, g) == Ass3dTileKind::Cit) <==> g == Some(TileGentKind::Cit),
        forall|k1: TileKind, k2: TileKind, s1: StructureKind, s2: StructureKind|
            s1 != s2 && s1 != StructureKind::Road && s2 != StructureKind::Road ==>
            ass3d_kind_of(k1, Some(TileGentKind::Structure(s1))) != ass3d_kind_of(k2, Some(TileGentKind::Structure(s2))),
        forall|k: TileKind|
            ass3d_kind_of(k, Some(TileGentKind::Structure(StructureKind::Road))) == #[trigger] ass3d_kind_of(k, None),
{
}

/// A tile with no city or structure on it (or a road) shows its terrain:
/// its asset joins neighbours of its own terrain in the tileset, distinct
/// terrains show distinct assets, and only a structure foundation, which has
/// no asset of its own, shows the placeholder.
pub proof fn lemma_terrain_assets()
    ensures
        forall|k: TileKind| k != TileKind::FoundationStruct ==> neigh_joins(#[trigger] ass3d_kind_of(k, None), k),
        forall|k1: TileKind, k2: TileKind| k1 != k2 ==>
            #[trigger] ass3d_kind_of(k1, None) != #[trigger] ass3d_kind_of(k2, None),
        forall|k: TileKind| (#[trigger] ass3d_kind_of(k, None) == Ass3dTileKind::BadTile) <==> k == TileKind::FoundationStruct,
{
}

/// For every neighbour mask, the rotations that may be used are exactly the
/// turns that bring the chosen variant's pattern onto the mask; in
/// particular there is at least one.
pub proof fn lemma_tileset_rotations(mask: u8, r: int)
    requires
        mask < 64,
        0 <= r < 6,
    ensures
        has_bit(tileset_lut(mask).1 as nat, r) <==> turn6(variant_pattern(tileset_lut(mask).0), r) == mask,
        tileset_lut(mask).1 > 0,
        tileset_lut(mask).1 < 64,
{
    if r == 0 {
        lemma_tileset_turn_0(mask);
    } else if r == 1 {
        lemma_tileset_turn_1(mask);
    } else if r == 2 {
        lemma_tileset_turn_2(mask);
    } else if r == 3 {
        lemma_tileset_turn_3(mask);
    } else if r == 4 {
        lemma_tileset_turn_4(mask);
    } else {
        lemma_tileset_turn_5(mask);
    }
    lemma_tileset_nonempty(mask);
}

proof fn lemma_tileset_nonempty(mask: u8)
    requires
        mask < 64,
    ensures
        0 < tileset_lut(mask).1 < 64,
{
    if mask == 0 {
    } else if mask == 1 {
    } else if mask == 2 {
    } else if mask == 3 {
    } else if mask == 4 {
    } else if mask == 5 {
    } else if mask == 6 {
    } else if mask == 7 {
    } else if mask == 8 {
    } else if mask == 9 {
    } else if mask == 10 {
    } else if mask == 11 {
    } else if mask == 12 {
    } else if mask == 13 {
    } else if mask == 14 {
    } else if mask == 15 {
    } else if mask == 16 {
    } else if mask == 17 {
    } else if mask == 18 {
    } else if mask == 19 {
    } else if mask == 20 {
    } else if mask == 21 {
    } else if mask == 22 {
    } else if mask == 23 {
    } else if mask == 24 {
    } else if mask == 25 {
    } else if mask == 26 {
    } else if mask == 27 {
    } else if mask == 28 {
    } else if mask == 29 {
    } else if mask == 30 {
    } else if mask == 31 {
    } else if mask == 32 {
    } else if mask == 33 {
    } else if mask == 34 {
    } else if mask == 35 {
    } else if mask == 36 {
    } else if mask == 37 {
    } else if mask == 38 {
    } else if mask == 39 {
    } else if mask == 40 {
    } else if mask == 41 {
    } else if mask == 42 {
    } else if mask == 43 {
    } else if mask == 44 {
    } else if mask == 45 {
    } else if mask == 46 {
    } else if mask == 47 {
    } else if mask == 48 {
    } else if mask == 49 {
    } else if mask == 50 {
    } else if mask == 51 {
    } else if mask == 52 {
    } else if mask == 53 {
    } else if mask == 54 {
    } else if mask == 55 {
    } else if mask == 56 {
    } else if mask == 57 {
    } else if mask == 58 {
    } else if mask == 59 {
    } else if mask == 60 {
    } else if mask == 61 {
    } else if mask == 62 {
    } else if mask == 63 {
    } else {
    }
}

#[verifier::spinoff_prover]
proof fn lemma_tileset_turn_0_0(mask: u8)
    requires
        0 <= mask < 32,
    ensures
        has_bit(tileset_lut(mask).1 as nat, 0) <==> turn6(variant_pattern(tileset_lut(mask).0), 0) == mask,
{
    if mask == 0 {
        assert(has_bit(tileset_lut(0u8).1 as nat, 0) <==> turn6(variant_pattern(tileset_lut(0u8).0), 0) == 0);
    } else if mask == 1 {
        assert(has_bit(tileset_lut(1u8).1 as nat, 0) <==> turn6(variant_pattern(tileset_lut(1u8).0), 0) == 1);
    } else if mask == 2 {
        assert(has_bit(tileset_lut(2u8).1 as nat, 0) <==> turn6(variant_pattern(tileset_lut(2u8).0), 0) == 2);
    } else if mask == 3 {
        assert(has_bit(tileset_lut(3u8).1 as nat, 0) <==> turn6(variant_pattern(tileset_lut(3u8).0), 0) == 3);
    } else if mask == 4 {
        assert(has_bit(tileset_lut(4u8).1 as nat, 0) <==> turn6(variant_pattern(tileset_lut(4u8).0), 0) == 4);
    } else if mask == 5 {
        assert(has_bit(tileset_lut(5u8).1 as nat, 0) <==> turn6(variant_pattern(tileset_lut(5u8).0), 0) == 5);
    } else if mask == 6 {
        assert(has_bit(tileset_lut(6u8).1 as nat, 0) <==> turn6(variant_pattern(tileset_lut(6u8).0), 0) == 6);
    } else if mask == 7 {
        assert(has_bit(tileset_lut(7u8).1 as nat, 0) <==> turn6(variant_pattern(tileset_lut(7u8).0), 0) == 7);
    } else if mask == 8 {
        assert(has_bit(tileset_lut(8u8).1 as nat, 0) <==> turn6(variant_pattern(tileset_lut(8u8).0), 0) == 8);
    } else if mask == 9 {
        assert(has_bit(tileset_lut(9u8).1 as nat, 0) <==> turn6(variant_pattern(tileset_lut(9u8).0), 0) == 9);
    } else if mask == 10 {
        assert(has_bit(tileset_lut(10u8).1 as nat, 0) <==> turn6(variant_pattern(tileset_lut(10u8).0), 0) == 10);
    } else if mask == 11 {
        assert(has_bit(tileset_lut(11u8).1 as nat, 0) <==> turn6(variant_pattern(tileset_lut(11u8).0), 0) == 11);
    } else if mask == 12 {
        assert(has_bit(tileset_lut(12u8).1 as nat, 0) <==> turn6(variant_pattern(tileset_lut(12u8).0), 0) == 12);
    } else if mask == 13 {
        assert(has_bit(tileset_lut(13u8).1 as nat, 0) <==> turn6(variant_pattern(tileset_lut(13u8).0), 0) == 13);
    } else if mask == 14 {
        assert(has_bit(tileset_lut(14u8).1 as nat, 0) <==> turn6(variant_pattern(tileset_lut(14u8).0), 0) == 14);
    } else if mask == 15 {
        assert(has_bit(tileset_lut(15u8).1 as nat, 0) <==> turn6(variant_pattern(tileset_lut(15u8).0), 0) == 15);
    } else if mask == 16 {
        assert(has_bit(tileset_lut(16u8).1 as nat, 0) <==> turn6(variant_pattern(tileset_lut(16u8).0), 0) == 16);
    } else if mask == 17 {
        assert(has_bit(tileset_lut(17u8).1 as nat, 0) <==> turn6(variant_pattern(tileset_lut(17u8).0), 0) == 17);
    } else if mask == 18 {
        assert(has_bit(tileset_lut(18u8).1 as nat, 0) <==> turn6(variant_pattern(tileset_lut(18u8).0), 0) == 18);
    } else if mask == 19 {
        assert(has_bit(tileset_lut(19u8).1 as nat, 0) <==> turn6(variant_pattern(tileset_lut(19u8).0), 0) == 19);
    } else if mask == 20 {
        assert(has_bit(tileset_lut(20u8).1 as nat, 0) <==> turn6(variant_pattern(tileset_lut(20u8).0), 0) == 20);
    } else if mask == 21 {
        assert(has_bit(tileset_lut(21u8).1 as nat, 0) <==> turn6(variant_pattern(tileset_lut(21u8).0), 0) == 21);
    } else if mask == 22 {
        assert(has_bit(tileset_lut(22u8).1 as nat, 0) <==> turn6(variant_pattern(tileset_lut(22u8).0), 0) == 22);
    } else if mask == 23 {
        assert(has_bit(tileset_lut(23u8).1 as nat, 0) <==> turn6(variant_pattern(tileset_lut(23u8).0), 0) == 23);
    } else if mask == 24 {
        assert(has_bit(tileset_lut(24u8).1 as nat, 0) <==> turn6(variant_pattern(tileset_lut(24u8).0), 0) == 24);
    } else if mask == 25 {
        assert(has_bit(tileset_lut(25u8).1 as nat, 0) <==> turn6(variant_pattern(tileset_lut(25u8).0), 0) == 25);
    } else if mask == 26 {
        assert(has_bit(tileset_lut(26u8).1 as nat, 0) <==> turn6(variant_pattern(tileset_lut(26u8).0), 0) == 26);
    } else if mask == 27 {
        assert(has_bit(tileset_lut(27u8).1 as nat, 0) <==> turn6(variant_pattern(tileset_lut(27u8).0), 0) == 27);
    } else if mask == 28 {
        assert(has_bit(tileset_lut(28u8).1 as nat, 0) <==> turn6(variant_pattern(tileset_lut(28u8).0), 0) == 28);
    } else if mask == 29 {
        assert(has_bit(tileset_lut(29u8).1 as nat, 0) <==> turn6(variant_pattern(tileset_lut(29u8).0), 0) == 29);
    } else if mask == 30 {
        assert(has_bit(tileset_lut(30u8).1 as nat, 0) <==> turn6(variant_pattern(tileset_lut(30u8).0), 0) == 30);
    } else if mask == 31 {
        assert(has_bit(tileset_lut(31u8).1 as nat, 0) <==> turn6(variant_pattern(tileset_lut(31u8).0), 0) == 31);
    }
}

#[verifier::spinoff_prover]
proof fn lemma_tileset_turn_0_1(mask: u8)
    requires
        32 <= mask < 64,
    ensures
        has_bit(tileset_lut(mask).1 as nat, 0) <==> turn6(variant_pattern(tileset_lut(mask).0), 0) == mask,
{
    if mask == 32 {
        assert(has_bit(tileset_lut(32u8).1 as nat, 0) <==> turn6(variant_pattern(tileset_lut(32u8).0), 0) == 32);
    } else if mask == 33 {
        assert(has_bit(tileset_lut(33u8).1 as nat, 0) <==> turn6(variant_pattern(tileset_lut(33u8).0), 0) == 33);
    } else if mask == 34 {
        assert(has_bit(tileset_lut(34u8).1 as nat, 0) <==> turn6(variant_pattern(tileset_lut(34u8).0), 0) == 34);
    } else if mask == 35 {
        assert(has_bit(tileset_lut(35u8).1 as nat, 0) <==> turn6(variant_pattern(tileset_lut(35u8).0), 0) == 35);
    } else if mask == 36 {
        assert(has_bit(tileset_lut(36u8).1 as nat, 0) <==> turn6(variant_pattern(tileset_lut(36u8).0), 0) == 36);
    } else if mask == 37 {
        assert(has_bit(tileset_lut(37u8).1 as nat, 0) <==> turn6(variant_pattern(tileset_lut(37u8).0), 0) == 37);
    } else if mask == 38 {
        assert(has_bit(tileset_lut(38u8).1 as nat, 0) <==> turn6(variant_pattern(tileset_lut(38u8).0), 0) == 38);
    } else if mask == 39 {
        assert(has_bit(tileset_lut(39u8).1 as nat, 0) <==> turn6(variant_pattern(tileset_lut(39u8).0), 0) == 39);
    } else if mask == 40 {
        assert(has_bit(tileset_lut(40u8).1 as nat, 0) <==> turn6(variant_pattern(tileset_lut(40u8).0), 0) == 40);
    } else if mask == 41 {
        assert(has_bit(tileset_lut(41u8).1 as nat, 0) <==> turn6(variant_pattern(tileset_lut(41u8).0), 0) == 41);
    } else if mask == 42 {
        assert(has_bit(tileset_lut(42u8).1 as nat, 0) <==> turn6(variant_pattern(tileset_lut(42u8).0), 0) == 42);
    } else if mask == 43 {
        assert(has_bit(tileset_lut(43u8).1 as nat, 0) <==> turn6(variant_pattern(tileset_lut(43u8).0), 0) == 43);
    } else if mask == 44 {
        assert(has_bit(tileset_lut(44u8).1 as nat, 0) <==> turn6(variant_pattern(tileset_lut(44u8).0), 0) == 44);
    } else if mask == 45 {
        assert(has_bit(tileset_lut(45u8).1 as nat, 0) <==> turn6(variant_pattern(tileset_lut(45u8).0), 0) == 45);
    } else if mask == 46 {
        assert(has_bit(tileset_lut(46u8).1 as nat, 0) <==> turn6(variant_pattern(tileset_lut(46u8).0), 0) == 46);
    } else if mask == 47 {
        assert(has_bit(tileset_lut(47u8).1 as nat, 0) <==> turn6(variant_pattern(tileset_lut(47u8).0), 0) == 47);
    } else if mask == 48 {
        assert(has_bit(tileset_lut(48u8).1 as nat, 0) <==> turn6(variant_pattern(tileset_lut(48u8).0), 0) == 48);
    } else if mask == 49 {
        assert(has_bit(tileset_lut(49u8).1 as nat, 0) <==> turn6(variant_pattern(tileset_lut(49u8).0), 0) == 49);
    } else if mask == 50 {
        assert(has_bit(tileset_lut(50u8).1 as nat, 0) <==> turn6(variant_pattern(tileset_lut(50u8).0), 0) == 50);
    } else if mask == 51 {
        assert(has_bit(tileset_lut(51u8).1 as nat, 0) <==> turn6(variant_pattern(tileset_lut(51u8).0), 0) == 51);
    } else if mask == 52 {
        assert(has_bit(tileset_lut(52u8).1 as nat, 0) <==> turn6(variant_pattern(tileset_lut(52u8).0), 0) == 52);
    } else if mask == 53 {
        assert(has_bit(tileset_lut(53u8).1 as nat, 0) <==> turn6(variant_pattern(tileset_lut(53u8).0), 0) == 53);
    } else if mask == 54 {
        assert(has_bit(tileset_lut(54u8).1 as nat, 0) <==> turn6(variant_pattern(tileset_lut(54u8).0), 0) == 54);
    } else if mask == 55 {
        assert(has_bit(tileset_lut(55u8).1 as nat, 0) <==> turn6(variant_pattern(tileset_lut(55u8).0), 0) == 55);
    } else if mask == 56 {
        assert(has_bit(tileset_lut(56u8).1 as nat, 0) <==> turn6(variant_pattern(tileset_lut(56u8).0), 0) == 56);
    } else if mask == 57 {
        assert(has_bit(tileset_lut(57u8).1 as nat, 0) <==> turn6(variant_pattern(tileset_lut(57u8).0), 0) == 57);
    } else if mask == 58 {
        assert(has_bit(tileset_lut(58u8).1 as nat, 0) <==> turn6(variant_pattern(tileset_lut(58u8).0), 0) == 58);
    } else if mask == 59 {
        assert(has_bit(tileset_lut(59u8).1 as nat, 0) <==> turn6(variant_pattern(tileset_lut(59u8).0), 0) == 59);
    } else if mask == 60 {
        assert(has_bit(tileset_lut(60u8).1 as nat, 0) <==> turn6(variant_pattern(tileset_lut(60u8).0), 0) == 60);
    } else if mask == 61 {
        assert(has_bit(tileset_lut(61u8).1 as nat, 0) <==> turn6(variant_pattern(tileset_lut(61u8).0), 0) == 61);
    } else if mask == 62 {
        assert(has_bit(tileset_lut(62u8).1 as nat, 0) <==> turn6(variant_pattern(tileset_lut(62u8).0), 0) == 62);
    } else if mask == 63 {
        assert(has_bit(tileset_lut(63u8).1 as nat, 0) <==> turn6(variant_pattern(tileset_lut(63u8).0), 0) == 63);
    }
}

proof fn lemma_tileset_turn_0(mask: u8)
    requires
        mask < 64,
    ensures
        has_bit(tileset_lut(mask).1 as nat, 0) <==> turn6(variant_pattern(tileset_lut(mask).0), 0) == mask,
{
    if mask < 32 {
        lemma_tileset_turn_0_0(mask);
    } else {
        lemma_tileset_turn_0_1(mask);
    }
}

#[verifier::spinoff_prover]
proof fn lemma_tileset_turn_1_0(mask: u8)
    requires
        0 <= mask < 32,
    ensures
        has_bit(tileset_lut(mask).1 as nat, 1) <==> turn6(variant_pattern(tileset_lut(mask).0), 1) == mask,
{
    if mask == 0 {
        assert(has_bit(tileset_lut(0u8).1 as nat, 1) <==> turn6(variant_pattern(tileset_lut(0u8).0), 1) == 0);
    } else if mask == 1 {
        assert(has_bit(tileset_lut(1u8).1 as nat, 1) <==> turn6(variant_pattern(tileset_lut(1u8).0), 1) == 1);
    } else if mask == 2 {
        assert(has_bit(tileset_lut(2u8).1 as nat, 1) <==> turn6(variant_pattern(tileset_lut(2u8).0), 1) == 2);
    } else if mask == 3 {
        assert(has_bit(tileset_lut(3u8).1 as nat, 1) <==> turn6(variant_pattern(tileset_lut(3u8).0), 1) == 3);
    } else if mask == 4 {
        assert(has_bit(tileset_lut(4u8).1 as nat, 1) <==> turn6(variant_pattern(tileset_lut(4u8).0), 1) == 4);
    } else if mask == 5 {
        assert(has_bit(tileset_lut(5u8).1 as nat, 1) <==> turn6(variant_pattern(tileset_lut(5u8).0), 1) == 5);
    } else if mask == 6 {
        assert(has_bit(tileset_lut(6u8).1 as nat, 1) <==> turn6(variant_pattern(tileset_lut(6u8).0), 1) == 6);
    } else if mask == 7 {
        assert(has_bit(tileset_lut(7u8).1 as nat, 1) <==> turn6(variant_pattern(tileset_lut(7u8).0), 1) == 7);
    } else if mask == 8 {
        assert(has_bit(tileset_lut(8u8).1 as nat, 1) <==> turn6(variant_pattern(tileset_lut(8u8).0), 1) == 8);
    } else if mask == 9 {
        assert(has_bit(tileset_lut(9u8).1 as nat, 1) <==> turn6(variant_pattern(tileset_lut(9u8).0), 1) == 9);
    } else if mask == 10 {
        assert(has_bit(tileset_lut(10u8).1 as nat, 1) <==> turn6(variant_pattern(tileset_lut(10u8).0), 1) == 10);
    } else if mask == 11 {
        assert(has_bit(tileset_lut(11u8).1 as nat, 1) <==> turn6(variant_pattern(tileset_lut(11u8).0), 1) == 11);
    } else if mask == 12 {
        assert(has_bit(tileset_lut(12u8).1 as nat, 1) <==> turn6(variant_pattern(tileset_lut(12u8).0), 1) == 12);
    } else if mask == 13 {
        assert(has_bit(tileset_lut(13u8).1 as nat, 1) <==> turn6(variant_pattern(tileset_lut(13u8).0), 1) == 13);
    } else if mask == 14 {
        assert(has_bit(tileset_lut(14u8).1 as nat, 1) <==> turn6(variant_pattern(tileset_lut(14u8).0), 1) == 14);
    } else if mask == 15 {
        assert(has_bit(tileset_lut(15u8).1 as nat, 1) <==> turn6(variant_pattern(tileset_lut(15u8).0), 1) == 15);
    } else if mask == 16 {
        assert(has_bit(tileset_lut(16u8).1 as nat, 1) <==> turn6(variant_pattern(tileset_lut(16u8).0), 1) == 16);
    } else if mask == 17 {
        assert(has_bit(tileset_lut(17u8).1 as nat, 1) <==> turn6(variant_pattern(tileset_lut(17u8).0), 1) == 17);
    } else if mask == 18 {
        assert(has_bit(tileset_lut(18u8).1 as nat, 1) <==> turn6(variant_pattern(tileset_lut(18u8).0), 1) == 18);
    } else if mask == 19 {
        assert(has_bit(tileset_lut(19u8).1 as nat, 1) <==> turn6(variant_pattern(tileset_lut(19u8).0), 1) == 19);
    } else if mask == 20 {
        assert(has_bit(tileset_lut(20u8).1 as nat, 1) <==> turn6(variant_pattern(tileset_lut(20u8).0), 1) == 20);
    } else if mask == 21 {
        assert(has_bit(tileset_lut(21u8).1 as nat, 1) <==> turn6(variant_pattern(tileset_lut(21u8).0), 1) == 21);
    } else if mask == 22 {
        assert(has_bit(tileset_lut(22u8).1 as nat, 1) <==> turn6(variant_pattern(tileset_lut(22u8).0), 1) == 22);
    } else if mask == 23 {
        assert(has_bit(tileset_lut(23u8).1 as nat, 1) <==> turn6(variant_pattern(tileset_lut(23u8).0), 1) == 23);
    } else if mask == 24 {
        assert(has_bit(tileset_lut(24u8).1 as nat, 1) <==> turn6(variant_pattern(tileset_lut(24u8).0), 1) == 24);
    } else if mask == 25 {
        assert(has_bit(tileset_lut(25u8).1 as nat, 1) <==> turn6(variant_pattern(tileset_lut(25u8).0), 1) == 25);
    } else if mask == 26 {
        assert(has_bit(tileset_lut(26u8).1 as nat, 1) <==> turn6(variant_pattern(tileset_lut(26u8).0), 1) == 26);
    } else if mask == 27 {
        assert(has_bit(tileset_lut(27u8).1 as nat, 1) <==> turn6(variant_pattern(tileset_lut(27u8).0), 1) == 27);
    } else if mask == 28 {
        assert(has_bit(tileset_lut(28u8).1 as nat, 1) <==> turn6(variant_pattern(tileset_lut(28u8).0), 1) == 28);
    } else if mask == 29 {
        assert(has_bit(tileset_lut(29u8).1 as nat, 1) <==> turn6(variant_pattern(tileset_lut(29u8).0), 1) == 29);
    } else if mask == 30 {
        assert(has_bit(tileset_lut(30u8).1 as nat, 1) <==> turn6(variant_pattern(tileset_lut(30u8).0), 1) == 30);
    } else if mask == 31 {
        assert(has_bit(tileset_lut(31u8).1 as nat, 1) <==> turn6(variant_pattern(tileset_lut(31u8).0), 1) == 31);
    }
}

#[verifier::spinoff_prover]
proof fn lemma_tileset_turn_1_1(mask: u8)
    requires
        32 <= mask < 64,
    ensures
        has_bit(tileset_lut(mask).1 as nat, 1) <==> turn6(variant_pattern(tileset_lut(mask).0), 1) == mask,
{
    if mask == 32 {
        assert(has_bit(tileset_lut(32u8).1 as nat, 1) <==> turn6(variant_pattern(tileset_lut(32u8).0), 1) == 32);
    } else if mask == 33 {
        assert(has_bit(tileset_lut(33u8).1 as nat, 1) <==> turn6(variant_pattern(tileset_lut(33u8).0), 1) == 33);
    } else if mask == 34 {
        assert(has_bit(tileset_lut(34u8).1 as nat, 1) <==> turn6(variant_pattern(tileset_lut(34u8).0), 1) == 34);
    } else if mask == 35 {
        assert(has_bit(tileset_lut(35u8).1 as nat, 1) <==> turn6(variant_pattern(tileset_lut(35u8).0), 1) == 35);
    } else if mask == 36 {
        assert(has_bit(tileset_lut(36u8).1 as nat, 1) <==> turn6(variant_pattern(tileset_lut(36u8).0), 1) == 36);
    } else if mask == 37 {
        assert(has_bit(tileset_lut(37u8).1 as nat, 1) <==> turn6(variant_pattern(tileset_lut(37u8).0), 1) == 37);
    } else if mask == 38 {
        assert(has_bit(tileset_lut(38u8).1 as nat, 1) <==> turn6(variant_pattern(tileset_lut(38u8).0), 1) == 38);
    } else if mask == 39 {
        assert(has_bit(tileset_lut(39u8).1 as nat, 1) <==> turn6(variant_pattern(tileset_lut(39u8).0), 1) == 39);
    } else if mask == 40 {
        assert(has_bit(tileset_lut(40u8).1 as nat, 1) <==> turn6(variant_pattern(tileset_lut(40u8).0), 1) == 40);
    } else if mask == 41 {
        assert(has_bit(tileset_lut(41u8).1 as nat, 1) <==> turn6(variant_pattern(tileset_lut(41u8).0), 1) == 41);
    } else if mask == 42 {
        assert(has_bit(tileset_lut(42u8).1 as nat, 1) <==> turn6(variant_pattern(tileset_lut(42u8).0), 1) == 42);
    } else if mask == 43 {
        assert(has_bit(tileset_lut(43u8).1 as nat, 1) <==> turn6(variant_pattern(tileset_lut(43u8).0), 1) == 43);
    } else if mask == 44 {
        assert(has_bit(tileset_lut(44u8).1 as nat, 1) <==> turn6(variant_pattern(tileset_lut(44u8).0), 1) == 44);
    } else if mask == 45 {
        assert(has_bit(tileset_lut(45u8).1 as nat, 1) <==> turn6(variant_pattern(tileset_lut(45u8).0), 1) == 45);
    } else if mask == 46 {
        assert(has_bit(tileset_lut(46u8).1 as nat, 1) <==> turn6(variant_pattern(tileset_lut(46u8).0), 1) == 46);
    } else if mask == 47 {
        assert(has_bit(tileset_lut(47u8).1 as nat, 1) <==> turn6(variant_pattern(tileset_lut(47u8).0), 1) == 47);
    } else if mask == 48 {
        assert(has_bit(tileset_lut(48u8).1 as nat, 1) <==> turn6(variant_pattern(tileset_lut(48u8).0), 1) == 48);
    } else if mask == 49 {
        assert(has_bit(tileset_lut(49u8).1 as nat, 1) <==> turn6(variant_pattern(tileset_lut(49u8).0), 1) == 49);
    } else if mask == 50 {
        assert(has_bit(tileset_lut(50u8).1 as nat, 1) <==> turn6(variant_pattern(tileset_lut(50u8).0), 1) == 50);
    } else if mask == 51 {
        assert(has_bit(tileset_lut(51u8).1 as nat, 1) <==> turn6(variant_pattern(tileset_lut(51u8).0), 1) == 51);
    } else if mask == 52 {
        assert(has_bit(tileset_lut(52u8).1 as nat, 1) <==> turn6(variant_pattern(tileset_lut(52u8).0), 1) == 52);
    } else if mask == 53 {
        assert(has_bit(tileset_lut(53u8).1 as nat, 1) <==> turn6(variant_pattern(tileset_lut(53u8).0), 1) == 53);
    } else if mask == 54 {
        assert(has_bit(tileset_lut(54u8).1 as nat, 1) <==> turn6(variant_pattern(tileset_lut(54u8).0), 1) == 54);
    } else if mask == 55 {
        assert(has_bit(tileset_lut(55u8).1 as nat, 1) <==> turn6(variant_pattern(tileset_lut(55u8).0), 1) == 55);
    } else if mask == 56 {
        assert(has_bit(tileset_lut(56u8).1 as nat, 1) <==> turn6(variant_pattern(tileset_lut(56u8).0), 1) == 56);
    } else if mask == 57 {
        assert(has_bit(tileset_lut(57u8).1 as nat, 1) <==> turn6(variant_pattern(tileset_lut(57u8).0), 1) == 57);
    } else if mask == 58 {
        assert(has_bit(tileset_lut(58u8).1 as nat, 1) <==> turn6(variant_pattern(tileset_lut(58u8).0), 1) == 58);
    } else if mask == 59 {
        assert(has_bit(tileset_lut(59u8).1 as nat, 1) <==> turn6(variant_pattern(tileset_lut(59u8).0), 1) == 59);
    } else if mask == 60 {
        assert(has_bit(tileset_lut(60u8).1 as nat, 1) <==> turn6(variant_pattern(tileset_lut(60u8).0), 1) == 60);
    } else if mask == 61 {
        assert(has_bit(tileset_lut(61u8).1 as nat, 1) <==> turn6(variant_pattern(tileset_lut(61u8).0), 1) == 61);
    } else if mask == 62 {
        assert(has_bit(tileset_lut(62u8).1 as nat, 1) <==> turn6(variant_pattern(tileset_lut(62u8).0), 1) == 62);
    } else if mask == 63 {
        assert(has_bit(tileset_lut(63u8).1 as nat, 1) <==> turn6(variant_pattern(tileset_lut(63u8).0), 1) == 63);
    }
}

proof fn lemma_tileset_turn_1(mask: u8)
    requires
        mask < 64,
    ensures
        has_bit(tileset_lut(mask).1 as nat, 1) <==> turn6(variant_pattern(tileset_lut(mask).0), 1) == mask,
{
    if mask < 32 {
        lemma_tileset_turn_1_0(mask);
    } else {
        lemma_tileset_turn_1_1(mask);
    }
}

#[verifier::spinoff_prover]
proof fn lemma_tileset_turn_2_0(mask: u8)
    requires
        0 <= mask < 32,
    ensures
        has_bit(tileset_lut(mask).1 as nat, 2) <==> turn6(variant_pattern(tileset_lut(mask).0), 2) == mask,
{
    if mask == 0 {
        assert(has_bit(tileset_lut(0u8).1 as nat, 2) <==> turn6(variant_pattern(tileset_lut(0u8).0), 2) == 0);
    } else if mask == 1 {
        assert(has_bit(tileset_lut(1u8).1 as nat, 2) <==> turn6(variant_pattern(tileset_lut(1u8).0), 2) == 1);
    } else if mask == 2 {
        assert(has_bit(tileset_lut(2u8).1 as nat, 2) <==> turn6(variant_pattern(tileset_lut(2u8).0), 2) == 2);
    } else if mask == 3 {
        assert(has_bit(tileset_lut(3u8).1 as nat, 2) <==> turn6(variant_pattern(tileset_lut(3u8).0), 2) == 3);
    } else if mask == 4 {
        assert(has_bit(tileset_lut(4u8).1 as nat, 2) <==> turn6(variant_pattern(tileset_lut(4u8).0), 2) == 4);
    } else if mask == 5 {
        assert(has_bit(tileset_lut(5u8).1 as nat, 2) <==> turn6(variant_pattern(tileset_lut(5u8).0), 2) == 5);
    } else if mask == 6 {
        assert(has_bit(tileset_lut(6u8).1 as nat, 2) <==> turn6(variant_pattern(tileset_lut(6u8).0), 2) == 6);
    } else if mask == 7 {
        assert(has_bit(tileset_lut(7u8).1 as nat, 2) <==> turn6(variant_pattern(tileset_lut(7u8).0), 2) == 7);
    } else if mask == 8 {
        assert(has_bit(tileset_lut(8u8).1 as nat, 2) <==> turn6(variant_pattern(tileset_lut(8u8).0), 2) == 8);
    } else if mask == 9 {
        assert(has_bit(tileset_lut(9u8).1 as nat, 2) <==> turn6(variant_pattern(tileset_lut(9u8).0), 2) == 9);
    } else if mask == 10 {
        assert(has_bit(tileset_lut(10u8).1 as nat, 2) <==> turn6(variant_pattern(tileset_lut(10u8).0), 2) == 10);
    } else if mask == 11 {
        assert(has_bit(tileset_lut(11u8).1 as nat, 2) <==> turn6(variant_pattern(tileset_lut(11u8).0), 2) == 11);
    } else if mask == 12 {
        assert(has_bit(tileset_lut(12u8).1 as nat, 2) <==> turn6(variant_pattern(tileset_lut(12u8).0), 2) == 12);
    } else if mask == 13 {
        assert(has_bit(tileset_lut(13u8).1 as nat, 2) <==> turn6(variant_pattern(tileset_lut(13u8).0), 2) == 13);
    } else if mask == 14 {
        assert(has_bit(tileset_lut(14u8).1 as nat, 2) <==> turn6(variant_pattern(tileset_lut(14u8).0), 2) == 14);
    } else if mask == 15 {
        assert(has_bit(tileset_lut(15u8).1 as nat, 2) <==> turn6(variant_pattern(tileset_lut(15u8).0), 2) == 15);
    } else if mask == 16 {
        assert(has_bit(tileset_lut(16u8).1 as nat, 2) <==> turn6(variant_pattern(tileset_lut(16u8).0), 2) == 16);
    } else if mask == 17 {
        assert(has_bit(tileset_lut(17u8).1 as nat, 2) <==> turn6(variant_pattern(tileset_lut(17u8).0), 2) == 17);
    } else if mask == 18 {
        assert(has_bit(tileset_lut(18u8).1 as nat, 2) <==> turn6(variant_pattern(tileset_lut(18u8).0), 2) == 18);
    } else if mask == 19 {
        assert(has_bit(tileset_lut(19u8).1 as nat, 2) <==> turn6(variant_pattern(tileset_lut(19u8).0), 2) == 19);
    } else if mask == 20 {
        assert(has_bit(tileset_lut(20u8).1 as nat, 2) <==> turn6(variant_pattern(tileset_lut(20u8).0), 2) == 20);
    } else if mask == 21 {
        assert(has_bit(tileset_lut(21u8).1 as nat, 2) <==> turn6(variant_pattern(tileset_lut(21u8).0), 2) == 21);
    } else if mask == 22 {
        assert(has_bit(tileset_lut(22u8).1 as nat, 2) <==> turn6(variant_pattern(tileset_lut(22u8).0), 2) == 22);
    } else if mask == 23 {
        assert(has_bit(tileset_lut(23u8).1 as nat, 2) <==> turn6(variant_pattern(tileset_lut(23u8).0), 2) == 23);
    } else if mask == 24 {
        assert(has_bit(tileset_lut(24u8).1 as nat, 2) <==> turn6(variant_pattern(tileset_lut(24u8).0), 2) == 24);
    } else if mask == 25 {
        assert(has_bit(tileset_lut(25u8).1 as nat, 2) <==> turn6(variant_pattern(tileset_lut(25u8).0), 2) == 25);
    } else if mask == 26 {
        assert(has_bit(tileset_lut(26u8).1 as nat, 2) <==> turn6(variant_pattern(tileset_lut(26u8).0), 2) == 26);
    } else if mask == 27 {
        assert(has_bit(tileset_lut(27u8).1 as nat, 2) <==> turn6(variant_pattern(tileset_lut(27u8).0), 2) == 27);
    } else if mask == 28 {
        assert(has_bit(tileset_lut(28u8).1 as nat, 2) <==> turn6(variant_pattern(tileset_lut(28u8).0), 2) == 28);
    } else if mask == 29 {
        assert(has_bit(tileset_lut(29u8).1 as nat, 2) <==> turn6(variant_pattern(tileset_lut(29u8).0), 2) == 29);
    } else if mask == 30 {
        assert(has_bit(tileset_lut(30u8).1 as nat, 2) <==> turn6(variant_pattern(tileset_lut(30u8).0), 2) == 30);
    } else if mask == 31 {
        assert(has_bit(tileset_lut(31u8).1 as nat, 2) <==> turn6(variant_pattern(tileset_lut(31u8).0), 2) == 31);
    }
}

#[verifier::spinoff_prover]
proof fn lemma_tileset_turn_2_1(mask: u8)
    requires
        32 <= mask < 64,
    ensures
        has_bit(tileset_lut(mask).1 as nat, 2) <==> turn6(variant_pattern(tileset_lut(mask).0), 2) == mask,
{
    if mask == 32 {
        assert(has_bit(tileset_lut(32u8).1 as nat, 2) <==> turn6(variant_pattern(tileset_lut(32u8).0), 2) == 32);
    } else if mask == 33 {
        assert(has_bit(tileset_lut(33u8).1 as nat, 2) <==> turn6(variant_pattern(tileset_lut(33u8).0), 2) == 33);
    } else if mask == 34 {
        assert(has_bit(tileset_lut(34u8).1 as nat, 2) <==> turn6(variant_pattern(tileset_lut(34u8).0), 2) == 34);
    } else if mask == 35 {
        assert(has_bit(tileset_lut(35u8).1 as nat, 2) <==> turn6(variant_pattern(tileset_lut(35u8).0), 2) == 35);
    } else if mask == 36 {
        assert(has_bit(tileset_lut(36u8).1 as nat, 2) <==> turn6(variant_pattern(tileset_lut(36u8).0), 2) == 36);
    } else if mask == 37 {
        assert(has_bit(tileset_lut(37u8).1 as nat, 2) <==> turn6(variant_pattern(tileset_lut(37u8).0), 2) == 37);
    } else if mask == 38 {
        assert(has_bit(tileset_lut(38u8).1 as nat, 2) <==> turn6(variant_pattern(tileset_lut(38u8).0), 2) == 38);
    } else if mask == 39 {
        assert(has_bit(tileset_lut(39u8).1 as nat, 2) <==> turn6(variant_pattern(tileset_lut(39u8).0), 2) == 39);
    } else if mask == 40 {
        assert(has_bit(tileset_lut(40u8).1 as nat, 2) <==> turn6(variant_pattern(tileset_lut(40u8).0), 2) == 40);
    } else if mask == 41 {
        assert(has_bit(tileset_lut(41u8).1 as nat, 2) <==> turn6(variant_pattern(tileset_lut(41u8).0), 2) == 41);
    } else if mask == 42 {
        assert(has_bit(tileset_lut(42u8).1 as nat, 2) <==> turn6(variant_pattern(tileset_lut(42u8).0), 2) == 42);
    } else if mask == 43 {
        assert(has_bit(tileset_lut(43u8).1 as nat, 2) <==> turn6(variant_pattern(tileset_lut(43u8).0), 2) == 43);
    } else if mask == 44 {
        assert(has_bit(tileset_lut(44u8).1 as nat, 2) <==> turn6(variant_pattern(tileset_lut(44u8).0), 2) == 44);
    } else if mask == 45 {
        assert(has_bit(tileset_lut(45u8).1 as nat, 2) <==> turn6(variant_pattern(tileset_lut(45u8).0), 2) == 45);
    } else if mask == 46 {
        assert(has_bit(tileset_lut(46u8).1 as nat, 2) <==> turn6(variant_pattern(tileset_lut(46u8).0), 2) == 46);
    } else if mask == 47 {
        assert(has_bit(tileset_lut(47u8).1 as nat, 2) <==> turn6(variant_pattern(tileset_lut(47u8).0), 2) == 47);
    } else if mask == 48 {
        assert(has_bit(tileset_lut(48u8).1 as nat, 2) <==> turn6(variant_pattern(tileset_lut(48u8).0), 2) == 48);
    } else if mask == 49 {
        assert(has_bit(tileset_lut(49u8).1 as nat, 2) <==> turn6(variant_pattern(tileset_lut(49u8).0), 2) == 49);
    } else if mask == 50 {
        assert(has_bit(tileset_lut(50u8).1 as nat, 2) <==> turn6(variant_pattern(tileset_lut(50u8).0), 2) == 50);
    } else if mask == 51 {
        assert(has_bit(tileset_lut(51u8).1 as nat, 2) <==> turn6(variant_pattern(tileset_lut(51u8).0), 2) == 51);
    } else if mask == 52 {
        assert(has_bit(tileset_lut(52u8).1 as nat, 2) <==> turn6(variant_pattern(tileset_lut(52u8).0), 2) == 52);
    } else if mask == 53 {
        assert(has_bit(tileset_lut(53u8).1 as nat, 2) <==> turn6(variant_pattern(tileset_lut(53u8).0), 2) == 53);
    } else if mask == 54 {
        assert(has_bit(tileset_lut(54u8).1 as nat, 2) <==> turn6(variant_pattern(tileset_lut(54u8).0), 2) == 54);
    } else if mask == 55 {
        assert(has_bit(tileset_lut(55u8).1 as nat, 2) <==> turn6(variant_pattern(tileset_lut(55u8).0), 2) == 55);
    } else if mask == 56 {
        assert(has_bit(tileset_lut(56u8).1 as nat, 2) <==> turn6(variant_pattern(tileset_lut(56u8).0), 2) == 56);
    } else if mask == 57 {
        assert(has_bit(tileset_lut(57u8).1 as nat, 2) <==> turn6(variant_pattern(tileset_lut(57u8).0), 2) == 57);
    } else if mask == 58 {
        assert(has_bit(tileset_lut(58u8).1 as nat, 2) <==> turn6(variant_pattern(tileset_lut(58u8).0), 2) == 58);
    } else if mask == 59 {
        assert(has_bit(tileset_lut(59u8).1 as nat, 2) <==> turn6(variant_pattern(tileset_lut(59u8).0), 2) == 59);
    } else if mask == 60 {
        assert(has_bit(tileset_lut(60u8).1 as nat, 2) <==> turn6(variant_pattern(tileset_lut(60u8).0), 2) == 60);
    } else if mask == 61 {
        assert(has_bit(tileset_lut(61u8).1 as nat, 2) <==> turn6(variant_pattern(tileset_lut(61u8).0), 2) == 61);
    } else if mask == 62 {
        assert(has_bit(tileset_lut(62u8).1 as nat, 2) <==> turn6(variant_pattern(tileset_lut(62u8).0), 2) == 62);
    } else if mask == 63 {
        assert(has_bit(tileset_lut(63u8).1 as nat, 2) <==> turn6(variant_pattern(tileset_lut(63u8).0), 2) == 63);
    }
}

proof fn lemma_tileset_turn_2(mask: u8)
    requires
        mask < 64,
    ensures
        has_bit(tileset_lut(mask).1 as nat, 2) <==> turn6(variant_pattern(tileset_lut(mask).0), 2) == mask,
{
    if mask < 32 {
        lemma_tileset_turn_2_0(mask);
    } else {
        lemma_tileset_turn_2_1(mask);
    }
}

#[verifier::spinoff_prover]
proof fn lemma_tileset_turn_3_0(mask: u8)
    requires
        0 <= mask < 32,
    ensures
        has_bit(tileset_lut(mask).1 as nat, 3) <==> turn6(variant_pattern(tileset_lut(mask).0), 3) == mask,
{
    if mask == 0 {
        assert(has_bit(tileset_lut(0u8).1 as nat, 3) <==> turn6(variant_pattern(tileset_lut(0u8).0), 3) == 0);
    } else if mask == 1 {
        assert(has_bit(tileset_lut(1u8).1 as nat, 3) <==> turn6(variant_pattern(tileset_lut(1u8).0), 3) == 1);
    } else if mask == 2 {
        assert(has_bit(tileset_lut(2u8).1 as nat, 3) <==> turn6(variant_pattern(tileset_lut(2u8).0), 3) == 2);
    } else if mask == 3 {
        assert(has_bit(tileset_lut(3u8).1 as nat, 3) <==> turn6(variant_pattern(tileset_lut(3u8).0), 3) == 3);
    } else if mask == 4 {
        assert(has_bit(tileset_lut(4u8).1 as nat, 3) <==> turn6(variant_pattern(tileset_lut(4u8).0), 3) == 4);
    } else if mask == 5 {
        assert(has_bit(tileset_lut(5u8).1 as nat, 3) <==> turn6(variant_pattern(tileset_lut(5u8).0), 3) == 5);
    } else if mask == 6 {
        assert(has_bit(tileset_lut(6u8).1 as nat, 3) <==> turn6(variant_pattern(tileset_lut(6u8).0), 3) == 6);
    } else if mask == 7 {
        assert(has_bit(tileset_lut(7u8).1 as nat, 3) <==> turn6(variant_pattern(tileset_lut(7u8).0), 3) == 7);
    } else if mask == 8 {
        assert(has_bit(tileset_lut(8u8).1 as nat, 3) <==> turn6(variant_pattern(tileset_lut(8u8).0), 3) == 8);
    } else if mask == 9 {
        assert(has_bit(tileset_lut(9u8).1 as nat, 3) <==> turn6(variant_pattern(tileset_lut(9u8).0), 3) == 9);
    } else if mask == 10 {
        assert(has_bit(tileset_lut(10u8).1 as nat, 3) <==> turn6(variant_pattern(tileset_lut(10u8).0), 3) == 10);
    } else if mask == 11 {
        assert(has_bit(tileset_lut(11u8).1 as nat, 3) <==> turn6(variant_pattern(tileset_lut(11u8).0), 3) == 11);
    } else if mask == 12 {
        assert(has_bit(tileset_lut(12u8).1 as nat, 3) <==> turn6(variant_pattern(tileset_lut(12u8).0), 3) == 12);
    } else if mask == 13 {
        assert(has_bit(tileset_lut(13u8).1 as nat, 3) <==> turn6(variant_pattern(tileset_lut(13u8).0), 3) == 13);
    } else if mask == 14 {
        assert(has_bit(tileset_lut(14u8).1 as nat, 3) <==> turn6(variant_pattern(tileset_lut(14u8).0), 3) == 14);
    } else if mask == 15 {
        assert(has_bit(tileset_lut(15u8).1 as nat, 3) <==> turn6(variant_pattern(tileset_lut(15u8).0), 3) == 15);
    } else if mask == 16 {
        assert(has_bit(tileset_lut(16u8).1 as nat, 3) <==> turn6(variant_pattern(tileset_lut(16u8).0), 3) == 16);
    } else if mask == 17 {
        assert(has_bit(tileset_lut(17u8).1 as nat, 3) <==> turn6(variant_pattern(tileset_lut(17u8).0), 3) == 17);
    } else if mask == 18 {
        assert(has_bit(tileset_lut(18u8).1 as nat, 3) <==> turn6(variant_pattern(tileset_lut(18u8).0), 3) == 18);
    } else if mask == 19 {
        assert(has_bit(tileset_lut(19u8).1 as nat, 3) <==> turn6(variant_pattern(tileset_lut(19u8).0), 3) == 19);
    } else if mask == 20 {
        assert(has_bit(tileset_lut(20u8).1 as nat, 3) <==> turn6(variant_pattern(tileset_lut(20u8).0), 3) == 20);
    } else if mask == 21 {
        assert(has_bit(tileset_lut(21u8).1 as nat, 3) <==> turn6(variant_pattern(tileset_lut(21u8).0), 3) == 21);
    } else if mask == 22 {
        assert(has_bit(tileset_lut(22u8).1 as nat, 3) <==> turn6(variant_pattern(tileset_lut(22u8).0), 3) == 22);
    } else if mask == 23 {
        assert(has_bit(tileset_lut(23u8).1 as nat, 3) <==> turn6(variant_pattern(tileset_lut(23u8).0), 3) == 23);
    } else if mask == 24 {
        assert(has_bit(tileset_lut(24u8).1 as nat, 3) <==> turn6(variant_pattern(tileset_lut(24u8).0), 3) == 24);
    } else if mask == 25 {
        assert(has_bit(tileset_lut(25u8).1 as nat, 3) <==> turn6(variant_pattern(tileset_lut(25u8).0), 3) == 25);
    } else if mask == 26 {
        assert(has_bit(tileset_lut(26u8).1 as nat, 3) <==> turn6(variant_pattern(tileset_lut(26u8).0), 3) == 26);
    } else if mask == 27 {
        assert(has_bit(tileset_lut(27u8).1 as nat, 3) <==> turn6(variant_pattern(tileset_lut(27u8).0), 3) == 27);
    } else if mask == 28 {
        assert(has_bit(tileset_lut(28u8).1 as nat, 3) <==> turn6(variant_pattern(tileset_lut(28u8).0), 3) == 28);
    } else if mask == 29 {
        assert(has_bit(tileset_lut(29u8).1 as nat, 3) <==> turn6(variant_pattern(tileset_lut(29u8).0), 3) == 29);
    } else if mask == 30 {
        assert(has_bit(tileset_lut(30u8).1 as nat, 3) <==> turn6(variant_pattern(tileset_lut(30u8).0), 3) == 30);
    } else if mask == 31 {
        assert(has_bit(tileset_lut(31u8).1 as nat, 3) <==> turn6(variant_pattern(tileset_lut(31u8).0), 3) == 31);
    }
}

#[verifier::spinoff_prover]
proof fn lemma_tileset_turn_3_1(mask: u8)
    requires
        32 <= mask < 64,
    ensures
        has_bit(tileset_lut(mask).1 as nat, 3) <==> turn6(variant_pattern(tileset_lut(mask).0), 3) == mask,
{
    if mask == 32 {
        assert(has_bit(tileset_lut(32u8).1 as nat, 3) <==> turn6(variant_pattern(tileset_lut(32u8).0), 3) == 32);
    } else if mask == 33 {
        assert(has_bit(tileset_lut(33u8).1 as nat, 3) <==> turn6(variant_pattern(tileset_lut(33u8).0), 3) == 33);
    } else if mask == 34 {
        assert(has_bit(tileset_lut(34u8).1 as nat, 3) <==> turn6(variant_pattern(tileset_lut(34u8).0), 3) == 34);
    } else if mask == 35 {
        assert(has_bit(tileset_lut(35u8).1 as nat, 3) <==> turn6(variant_pattern(tileset_lut(35u8).0), 3) == 35);
    } else if mask == 36 {
        assert(has_bit(tileset_lut(36u8).1 as nat, 3) <==> turn6(variant_pattern(tileset_lut(36u8).0), 3) == 36);
    } else if mask == 37 {
        assert(has_bit(tileset_lut(37u8).1 as nat, 3) <==> turn6(variant_pattern(tileset_lut(37u8).0), 3) == 37);
    } else if mask == 38 {
        assert(has_bit(tileset_lut(38u8).1 as nat, 3) <==> turn6(variant_pattern(tileset_lut(38u8).0), 3) == 38);
    } else if mask == 39 {
        assert(has_bit(tileset_lut(39u8).1 as nat, 3) <==> turn6(variant_pattern(tileset_lut(39u8).0), 3) == 39);
    } else if mask == 40 {
        assert(has_bit(tileset_lut(40u8).1 as nat, 3) <==> turn6(variant_pattern(tileset_lut(40u8).0), 3) == 40);
    } else if mask == 41 {
        assert(has_bit(tileset_lut(41u8).1 as nat, 3) <==> turn6(variant_pattern(tileset_lut(41u8).0), 3) == 41);
    } else if mask == 42 {
        assert(has_bit(tileset_lut(42u8).1 as nat, 3) <==> turn6(variant_pattern(tileset_lut(42u8).0), 3) == 42);
    } else if mask == 43 {
        assert(has_bit(tileset_lut(43u8).1 as nat, 3) <==> turn6(variant_pattern(tileset_lut(43u8).0), 3) == 43);
    } else if mask == 44 {
        assert(has_bit(tileset_lut(44u8).1 as nat, 3) <==> turn6(variant_pattern(tileset_lut(44u8).0), 3) == 44);
    } else if mask == 45 {
        assert(has_bit(tileset_lut(45u8).1 as nat, 3) <==> turn6(variant_pattern(tileset_lut(45u8).0), 3) == 45);
    } else if mask == 46 {
        assert(has_bit(tileset_lut(46u8).1 as nat, 3) <==> turn6(variant_pattern(tileset_lut(46u8).0), 3) == 46);
    } else if mask == 47 {
        assert(has_bit(tileset_lut(47u8).1 as nat, 3) <==> turn6(variant_pattern(tileset_lut(47u8).0), 3) == 47);
    } else if mask == 48 {
        assert(has_bit(tileset_lut(48u8).1 as nat, 3) <==> turn6(variant_pattern(tileset_lut(48u8).0), 3) == 48);
    } else if mask == 49 {
        assert(has_bit(tileset_lut(49u8).1 as nat, 3) <==> turn6(variant_pattern(tileset_lut(49u8).0), 3) == 49);
    } else if mask == 50 {
        assert(has_bit(tileset_lut(50u8).1 as nat, 3) <==> turn6(variant_pattern(tileset_lut(50u8).0), 3) == 50);
    } else if mask == 51 {
        assert(has_bit(tileset_lut(51u8).1 as nat, 3) <==> turn6(variant_pattern(tileset_lut(51u8).0), 3) == 51);
    } else if mask == 52 {
        assert(has_bit(tileset_lut(52u8).1 as nat, 3) <==> turn6(variant_pattern(tileset_lut(52u8).0), 3) == 52);
    } else if mask == 53 {
        assert(has_bit(tileset_lut(53u8).1 as nat, 3) <==> turn6(variant_pattern(tileset_lut(53u8).0), 3) == 53);
    } else if mask == 54 {
        assert(has_bit(tileset_lut(54u8).1 as nat, 3) <==> turn6(variant_pattern(tileset_lut(54u8).0), 3) == 54);
    } else if mask == 55 {
        assert(has_bit(tileset_lut(55u8).1 as nat, 3) <==> turn6(variant_pattern(tileset_lut(55u8).0), 3) == 55);
    } else if mask == 56 {
        assert(has_bit(tileset_lut(56u8).1 as nat, 3) <==> turn6(variant_pattern(tileset_lut(56u8).0), 3) == 56);
    } else if mask == 57 {
        assert(has_bit(tileset_lut(57u8).1 as nat, 3) <==> turn6(variant_pattern(tileset_lut(57u8).0), 3) == 57);
    } else if mask == 58 {
        assert(has_bit(tileset_lut(58u8).1 as nat, 3) <==> turn6(variant_pattern(tileset_lut(58u8).0), 3) == 58);
    } else if mask == 59 {
        assert(has_bit(tileset_lut(59u8).1 as nat, 3) <==> turn6(variant_pattern(tileset_lut(59u8).0), 3) == 59);
    } else if mask == 60 {
        assert(has_bit(tileset_lut(60u8).1 as nat, 3) <==> turn6(variant_pattern(tileset_lut(60u8).0), 3) == 60);
    } else if mask == 61 {
        assert(has_bit(tileset_lut(61u8).1 as nat, 3) <==> turn6(variant_pattern(tileset_lut(61u8).0), 3) == 61);
    } else if mask == 62 {
        assert(has_bit(tileset_lut(62u8).1 as nat, 3) <==> turn6(variant_pattern(tileset_lut(62u8).0), 3) == 62);
    } else if mask == 63 {
        assert(has_bit(tileset_lut(63u8).1 as nat, 3) <==> turn6(variant_pattern(tileset_lut(63u8).0), 3) == 63);
    }
}

proof fn lemma_tileset_turn_3(mask: u8)
    requires
        mask < 64,
    ensures
        has_bit(tileset_lut(mask).1 as nat, 3) <==> turn6(variant_pattern(tileset_lut(mask).0), 3) == mask,
{
    if mask < 32 {
        lemma_tileset_turn_3_0(mask);
    } else {
        lemma_tileset_turn_3_1(mask);
    }
}

#[verifier::spinoff_prover]
proof fn lemma_tileset_turn_4_0(mask: u8)
    requires
        0 <= mask < 32,
    ensures
        has_bit(tileset_lut(mask).1 as nat, 4) <==> turn6(variant_pattern(tileset_lut(mask).0), 4) == mask,
{
    if mask == 0 {
        assert(has_bit(tileset_lut(0u8).1 as nat, 4) <==> turn6(variant_pattern(tileset_lut(0u8).0), 4) == 0);
    } else if mask == 1 {
        assert(has_bit(tileset_lut(1u8).1 as nat, 4) <==> turn6(variant_pattern(tileset_lut(1u8).0), 4) == 1);
    } else if mask == 2 {
        assert(has_bit(tileset_lut(2u8).1 as nat, 4) <==> turn6(variant_pattern(tileset_lut(2u8).0), 4) == 2);
    } else if mask == 3 {
        assert(has_bit(tileset_lut(3u8).1 as nat, 4) <==> turn6(variant_pattern(tileset_lut(3u8).0), 4) == 3);
    } else if mask == 4 {
        assert(has_bit(tileset_lut(4u8).1 as nat, 4) <==> turn6(variant_pattern(tileset_lut(4u8).0), 4) == 4);
    } else if mask == 5 {
        assert(has_bit(tileset_lut(5u8).1 as nat, 4) <==> turn6(variant_pattern(tileset_lut(5u8).0), 4) == 5);
    } else if mask == 6 {
        assert(has_bit(tileset_lut(6u8).1 as nat, 4) <==> turn6(variant_pattern(tileset_lut(6u8).0), 4) == 6);
    } else if mask == 7 {
        assert(has_bit(tileset_lut(7u8).1 as nat, 4) <==> turn6(variant_pattern(tileset_lut(7u8).0), 4) == 7);
    } else if mask == 8 {
        assert(has_bit(tileset_lut(8u8).1 as nat, 4) <==> turn6(variant_pattern(tileset_lut(8u8).0), 4) == 8);
    } else if mask == 9 {
        assert(has_bit(tileset_lut(9u8).1 as nat, 4) <==> turn6(variant_pattern(tileset_lut(9u8).0), 4) == 9);
    } else if mask == 10 {
        assert(has_bit(tileset_lut(10u8).1 as nat, 4) <==> turn6(variant_pattern(tileset_lut(10u8).0), 4) == 10);
    } else if mask == 11 {
        assert(has_bit(tileset_lut(11u8).1 as nat, 4) <==> turn6(variant_pattern(tileset_lut(11u8).0), 4) == 11);
    } else if mask == 12 {
        assert(has_bit(tileset_lut(12u8).1 as nat, 4) <==> turn6(variant_pattern(tileset_lut(12u8).0), 4) == 12);
    } else if mask == 13 {
        assert(has_bit(tileset_lut(13u8).1 as nat, 4) <==> turn6(variant_pattern(tileset_lut(13u8).0), 4) == 13);
    } else if mask == 14 {
        assert(has_bit(tileset_lut(14u8).1 as nat, 4) <==> turn6(variant_pattern(tileset_lut(14u8).0), 4) == 14);
    } else if mask == 15 {
        assert(has_bit(tileset_lut(15u8).1 as nat, 4) <==> turn6(variant_pattern(tileset_lut(15u8).0), 4) == 15);
    } else if mask == 16 {
        assert(has_bit(tileset_lut(16u8).1 as nat, 4) <==> turn6(variant_pattern(tileset_lut(16u8).0), 4) == 16);
    } else if mask == 17 {
        assert(has_bit(tileset_lut(17u8).1 as nat, 4) <==> turn6(variant_pattern(tileset_lut(17u8).0), 4) == 17);
    } else if mask == 18 {
        assert(has_bit(tileset_lut(18u8).1 as nat, 4) <==> turn6(variant_pattern(tileset_lut(18u8).0), 4) == 18);
    } else if mask == 19 {
        assert(has_bit(tileset_lut(19u8).1 as nat, 4) <==> turn6(variant_pattern(tileset_lut(19u8).0), 4) == 19);
    } else if mask == 20 {
        assert(has_bit(tileset_lut(20u8).1 as nat, 4) <==> turn6(variant_pattern(tileset_lut(20u8).0), 4) == 20);
    } else if mask == 21 {
        assert(has_bit(tileset_lut(21u8).1 as nat, 4) <==> turn6(variant_pattern(tileset_lut(21u8).0), 4) == 21);
    } else if mask == 22 {
        assert(has_bit(tileset_lut(22u8).1 as nat, 4) <==> turn6(variant_pattern(tileset_lut(22u8).0), 4) == 22);
    } else if mask == 23 {
        assert(has_bit(tileset_lut(23u8).1 as nat, 4) <==> turn6(variant_pattern(tileset_lut(23u8).0), 4) == 23);
    } else if mask == 24 {
        assert(has_bit(tileset_lut(24u8).1 as nat, 4) <==> turn6(variant_pattern(tileset_lut(24u8).0), 4) == 24);
    } else if mask == 25 {
        assert(has_bit(tileset_lut(25u8).1 as nat, 4) <==> turn6(variant_pattern(tileset_lut(25u8).0), 4) == 25);
    } else if mask == 26 {
        assert(has_bit(tileset_lut(26u8).1 as nat, 4) <==> turn6(variant_pattern(tileset_lut(26u8).0), 4) == 26);
    } else if mask == 27 {
        assert(has_bit(tileset_lut(27u8).1 as nat, 4) <==> turn6(variant_pattern(tileset_lut(27u8).0), 4) == 27);
    } else if mask == 28 {
        assert(has_bit(tileset_lut(28u8).1 as nat, 4) <==> turn6(variant_pattern(tileset_lut(28u8).0), 4) == 28);
    } else if mask == 29 {
        assert(has_bit(tileset_lut(29u8).1 as nat, 4) <==> turn6(variant_pattern(tileset_lut(29u8).0), 4) == 29);
    } else if mask == 30 {
        assert(has_bit(tileset_lut(30u8).1 as nat, 4) <==> turn6(variant_pattern(tileset_lut(30u8).0), 4) == 30);
    } else if mask == 31 {
        assert(has_bit(tileset_lut(31u8).1 as nat, 4) <==> turn6(variant_pattern(tileset_lut(31u8).0), 4) == 31);
    }
}

#[verifier::spinoff_prover]
proof fn lemma_tileset_turn_4_1(mask: u8)
    requires
        32 <= mask < 64,
    ensures
        has_bit(tileset_lut(mask).1 as nat, 4) <==> turn6(variant_pattern(tileset_lut(mask).0), 4) == mask,
{
    if mask == 32 {
        assert(has_bit(tileset_lut(32u8).1 as nat, 4) <==> turn6(variant_pattern(tileset_lut(32u8).0), 4) == 32);
    } else if mask == 33 {
        assert(has_bit(tileset_lut(33u8).1 as nat, 4) <==> turn6(variant_pattern(tileset_lut(33u8).0), 4) == 33);
    } else if mask == 34 {
        assert(has_bit(tileset_lut(34u8).1 as nat, 4) <==> turn6(variant_pattern(tileset_lut(34u8).0), 4) == 34);
    } else if mask == 35 {
        assert(has_bit(tileset_lut(35u8).1 as nat, 4) <==> turn6(variant_pattern(tileset_lut(35u8).0), 4) == 35);
    } else if mask == 36 {
        assert(has_bit(tileset_lut(36u8).1 as nat, 4) <==> turn6(variant_pattern(tileset_lut(36u8).0), 4) == 36);
    } else if mask == 37 {
        assert(has_bit(tileset_lut(37u8).1 as nat, 4) <==> turn6(variant_pattern(tileset_lut(37u8).0), 4) == 37);
    } else if mask == 38 {
        assert(has_bit(tileset_lut(38u8).1 as nat, 4) <==> turn6(variant_pattern(tileset_lut(38u8).0), 4) == 38);
    } else if mask == 39 {
        assert(has_bit(tileset_lut(39u8).1 as nat, 4) <==> turn6(variant_pattern(tileset_lut(39u8).0), 4) == 39);
    } else if mask == 40 {
        assert(has_bit(tileset_lut(40u8).1 as nat, 4) <==> turn6(variant_pattern(tileset_lut(40u8).0), 4) == 40);
    } else if mask == 41 {
        assert(has_bit(tileset_lut(41u8).1 as nat, 4) <==> turn6(variant_pattern(tileset_lut(41u8).0), 4) == 41);
    } else if mask == 42 {
        assert(has_bit(tileset_lut(42u8).1 as nat, 4) <==> turn6(variant_pattern(tileset_lut(42u8).0), 4) == 42);
    } else if mask == 43 {
        assert(has_bit(tileset_lut(43u8).1 as nat, 4) <==> turn6(variant_pattern(tileset_lut(43u8).0), 4) == 43);
    } else if mask == 44 {
        assert(has_bit(tileset_lut(44u8).1 as nat, 4) <==> turn6(variant_pattern(tileset_lut(44u8).0), 4) == 44);
    } else if mask == 45 {
        assert(has_bit(tileset_lut(45u8).1 as nat, 4) <==> turn6(variant_pattern(tileset_lut(45u8).0), 4) == 45);
    } else if mask == 46 {
        assert(has_bit(tileset_lut(46u8).1 as nat, 4) <==> turn6(variant_pattern(tileset_lut(46u8).0), 4) == 46);
    } else if mask == 47 {
        assert(has_bit(tileset_lut(47u8).1 as nat, 4) <==> turn6(variant_pattern(tileset_lut(47u8).0), 4) == 47);
    } else if mask == 48 {
        assert(has_bit(tileset_lut(48u8).1 as nat, 4) <==> turn6(variant_pattern(tileset_lut(48u8).0), 4) == 48);
    } else if mask == 49 {
        assert(has_bit(tileset_lut(49u8).1 as nat, 4) <==> turn6(variant_pattern(tileset_lut(49u8).0), 4) == 49);
    } else if mask == 50 {
        assert(has_bit(tileset_lut(50u8).1 as nat, 4) <==> turn6(variant_pattern(tileset_lut(50u8).0), 4) == 50);
    } else if mask == 51 {
        assert(has_bit(tileset_lut(51u8).1 as nat, 4) <==> turn6(variant_pattern(tileset_lut(51u8).0), 4) == 51);
    } else if mask == 52 {
        assert(has_bit(tileset_lut(52u8).1 as nat, 4) <==> turn6(variant_pattern(tileset_lut(52u8).0), 4) == 52);
    } else if mask == 53 {
        assert(has_bit(tileset_lut(53u8).1 as nat, 4) <==> turn6(variant_pattern(tileset_lut(53u8).0), 4) == 53);
    } else if mask == 54 {
        assert(has_bit(tileset_lut(54u8).1 as nat, 4) <==> turn6(variant_pattern(tileset_lut(54u8).0), 4) == 54);
    } else if mask == 55 {
        assert(has_bit(tileset_lut(55u8).1 as nat, 4) <==> turn6(variant_pattern(tileset_lut(55u8).0), 4) == 55);
    } else if mask == 56 {
        assert(has_bit(tileset_lut(56u8).1 as nat, 4) <==> turn6(variant_pattern(tileset_lut(56u8).0), 4) == 56);
    } else if mask == 57 {
        assert(has_bit(tileset_lut(57u8).1 as nat, 4) <==> turn6(variant_pattern(tileset_lut(57u8).0), 4) == 57);
    } else if mask == 58 {
        assert(has_bit(tileset_lut(58u8).1 as nat, 4) <==> turn6(variant_pattern(tileset_lut(58u8).0), 4) == 58);
    } else if mask == 59 {
        assert(has_bit(tileset_lut(59u8).1 as nat, 4) <==> turn6(variant_pattern(tileset_lut(59u8).0), 4) == 59);
    } else if mask == 60 {
        assert(has_bit(tileset_lut(60u8).1 as nat, 4) <==> turn6(variant_pattern(tileset_lut(60u8).0), 4) == 60);
    } else if mask == 61 {
        assert(has_bit(tileset_lut(61u8).1 as nat, 4) <==> turn6(variant_pattern(tileset_lut(61u8).0), 4) == 61);
    } else if mask == 62 {
        assert(has_bit(tileset_lut(62u8).1 as nat, 4) <==> turn6(variant_pattern(tileset_lut(62u8).0), 4) == 62);
    } else if mask == 63 {
        assert(has_bit(tileset_lut(63u8).1 as nat, 4) <==> turn6(variant_pattern(tileset_lut(63u8).0), 4) == 63);
    }
}

proof fn lemma_tileset_turn_4(mask: u8)
    requires
        mask < 64,
    ensures
        has_bit(tileset_lut(mask).1 as nat, 4) <==> turn6(variant_pattern(tileset_lut(mask).0), 4) == mask,
{
    if mask < 32 {
        lemma_tileset_turn_4_0(mask);
    } else {
        lemma_tileset_turn_4_1(mask);
    }
}

#[verifier::spinoff_prover]
proof fn lemma_tileset_turn_5_0(mask: u8)
    requires
        0 <= mask < 32,
    ensures
        has_bit(tileset_lut(mask).1 as nat, 5) <==> turn6(variant_pattern(tileset_lut(mask).0), 5) == mask,
{
    if mask == 0 {
        assert(has_bit(tileset_lut(0u8).1 as nat, 5) <==> turn6(variant_pattern(tileset_lut(0u8).0), 5) == 0);
    } else if mask == 1 {
        assert(has_bit(tileset_lut(1u8).1 as nat, 5) <==> turn6(variant_pattern(tileset_lut(1u8).0), 5) == 1);
    } else if mask == 2 {
        assert(has_bit(tileset_lut(2u8).1 as nat, 5) <==> turn6(variant_pattern(tileset_lut(2u8).0), 5) == 2);
    } else if mask == 3 {
        assert(has_bit(tileset_lut(3u8).1 as nat, 5) <==> turn6(variant_pattern(tileset_lut(3u8).0), 5) == 3);
    } else if mask == 4 {
        assert(has_bit(tileset_lut(4u8).1 as nat, 5) <==> turn6(variant_pattern(tileset_lut(4u8).0), 5) == 4);
    } else if mask == 5 {
        assert(has_bit(tileset_lut(5u8).1 as nat, 5) <==> turn6(variant_pattern(tileset_lut(5u8).0), 5) == 5);
    } else if mask == 6 {
        assert(has_bit(tileset_lut(6u8).1 as nat, 5) <==> turn6(variant_pattern(tileset_lut(6u8).0), 5) == 6);
    } else if mask == 7 {
        assert(has_bit(tileset_lut(7u8).1 as nat, 5) <==> turn6(variant_pattern(tileset_lut(7u8).0), 5) == 7);
    } else if mask == 8 {
        assert(has_bit(tileset_lut(8u8).1 as nat, 5) <==> turn6(variant_pattern(tileset_lut(8u8).0), 5) == 8);
    } else if mask == 9 {
        assert(has_bit(tileset_lut(9u8).1 as nat, 5) <==> turn6(variant_pattern(tileset_lut(9u8).0), 5) == 9);
    } else if mask == 10 {
        assert(has_bit(tileset_lut(10u8).1 as nat, 5) <==> turn6(variant_pattern(tileset_lut(10u8).0), 5) == 10);
    } else if mask == 11 {
        assert(has_bit(tileset_lut(11u8).1 as nat, 5) <==> turn6(variant_pattern(tileset_lut(11u8).0), 5) == 11);
    } else if mask == 12 {
        assert(has_bit(tileset_lut(12u8).1 as nat, 5) <==> turn6(variant_pattern(tileset_lut(12u8).0), 5) == 12);
    } else if mask == 13 {
        assert(has_bit(tileset_lut(13u8).1 as nat, 5) <==> turn6(variant_pattern(tileset_lut(13u8).0), 5) == 13);
    } else if mask == 14 {
        assert(has_bit(tileset_lut(14u8).1 as nat, 5) <==> turn6(variant_pattern(tileset_lut(14u8).0), 5) == 14);
    } else if mask == 15 {
        assert(has_bit(tileset_lut(15u8).1 as nat, 5) <==> turn6(variant_pattern(tileset_lut(15u8).0), 5) == 15);
    } else if mask == 16 {
        assert(has_bit(tileset_lut(16u8).1 as nat, 5) <==> turn6(variant_pattern(tileset_lut(16u8).0), 5) == 16);
    } else if mask == 17 {
        assert(has_bit(tileset_lut(17u8).1 as nat, 5) <==> turn6(variant_pattern(tileset_lut(17u8).0), 5) == 17);
    } else if mask == 18 {
        assert(has_bit(tileset_lut(18u8).1 as nat, 5) <==> turn6(variant_pattern(tileset_lut(18u8).0), 5) == 18);
    } else if mask == 19 {
        assert(has_bit(tileset_lut(19u8).1 as nat, 5) <==> turn6(variant_pattern(tileset_lut(19u8).0), 5) == 19);
    } else if mask == 20 {
        assert(has_bit(tileset_lut(20u8).1 as nat, 5) <==> turn6(variant_pattern(tileset_lut(20u8).0), 5) == 20);
    } else if mask == 21 {
        assert(has_bit(tileset_lut(21u8).1 as nat, 5) <==> turn6(variant_pattern(tileset_lut(21u8).0), 5) == 21);
    } else if mask == 22 {
        assert(has_bit(tileset_lut(22u8).1 as nat, 5) <==> turn6(variant_pattern(tileset_lut(22u8).0), 5) == 22);
    } else if mask == 23 {
        assert(has_bit(tileset_lut(23u8).1 as nat, 5) <==> turn6(variant_pattern(tileset_lut(23u8).0), 5) == 23);
    } else if mask == 24 {
        assert(has_bit(tileset_lut(24u8).1 as nat, 5) <==> turn6(variant_pattern(tileset_lut(24u8).0), 5) == 24);
    } else if mask == 25 {
        assert(has_bit(tileset_lut(25u8).1 as nat, 5) <==> turn6(variant_pattern(tileset_lut(25u8).0), 5) == 25);
    } else if mask == 26 {
        assert(has_bit(tileset_lut(26u8).1 as nat, 5) <==> turn6(variant_pattern(tileset_lut(26u8).0), 5) == 26);
    } else if mask == 27 {
        assert(has_bit(tileset_lut(27u8).1 as nat, 5) <==> turn6(variant_pattern(tileset_lut(27u8).0), 5) == 27);
    } else if mask == 28 {
        assert(has_bit(tileset_lut(28u8).1 as nat, 5) <==> turn6(variant_pattern(tileset_lut(28u8).0), 5) == 28);
    } else if mask == 29 {
        assert(has_bit(tileset_lut(29u8).1 as nat, 5) <==> turn6(variant_pattern(tileset_lut(29u8).0), 5) == 29);
    } else if mask == 30 {
        assert(has_bit(tileset_lut(30u8).1 as nat, 5) <==> turn6(variant_pattern(tileset_lut(30u8).0), 5) == 30);
    } else if mask == 31 {
        assert(has_bit(tileset_lut(31u8).1 as nat, 5) <==> turn6(variant_pattern(tileset_lut(31u8).0), 5) == 31);
    }
}

#[verifier::spinoff_prover]
proof fn lemma_tileset_turn_5_1(mask: u8)
    requires
        32 <= mask < 64,
    ensures
        has_bit(tileset_lut(mask).1 as nat, 5) <==> turn6(variant_pattern(tileset_lut(mask).0), 5) == mask,
{
    if mask == 32 {
        assert(has_bit(tileset_lut(32u8).1 as nat, 5) <==> turn6(variant_pattern(tileset_lut(32u8).0), 5) == 32);
    } else if mask == 33 {
        assert(has_bit(tileset_lut(33u8).1 as nat, 5) <==> turn6(variant_pattern(tileset_lut(33u8).0), 5) == 33);
    } else if mask == 34 {
        assert(has_bit(tileset_lut(34u8).1 as nat, 5) <==> turn6(variant_pattern(tileset_lut(34u8).0), 5) == 34);
    } else if mask == 35 {
        assert(has_bit(tileset_lut(35u8).1 as nat, 5) <==> turn6(variant_pattern(tileset_lut(35u8).0), 5) == 35);
    } else if mask == 36 {
        assert(has_bit(tileset_lut(36u8).1 as nat, 5) <==> turn6(variant_pattern(tileset_lut(36u8).0), 5) == 36);
    } else if mask == 37 {
        assert(has_bit(tileset_lut(37u8).1 as nat, 5) <==> turn6(variant_pattern(tileset_lut(37u8).0), 5) == 37);
    } else if mask == 38 {
        assert(has_bit(tileset_lut(38u8).1 as nat, 5) <==> turn6(variant_pattern(tileset_lut(38u8).0), 5) == 38);
    } else if mask == 39 {
        assert(has_bit(tileset_lut(39u8).1 as nat, 5) <==> turn6(variant_pattern(tileset_lut(39u8).0), 5) == 39);
    } else if mask == 40 {
        assert(has_bit(tileset_lut(40u8).1 as nat, 5) <==> turn6(variant_pattern(tileset_lut(40u8).0), 5) == 40);
    } else if mask == 41 {
        assert(has_bit(tileset_lut(41u8).1 as nat, 5) <==> turn6(variant_pattern(tileset_lut(41u8).0), 5) == 41);
    } else if mask == 42 {
        assert(has_bit(tileset_lut(42u8).1 as nat, 5) <==> turn6(variant_pattern(tileset_lut(42u8).0), 5) == 42);
    } else if mask == 43 {
        assert(has_bit(tileset_lut(43u8).1 as nat, 5) <==> turn6(variant_pattern(tileset_lut(43u8).0), 5) == 43);
    } else if mask == 44 {
        assert(has_bit(tileset_lut(44u8).1 as nat, 5) <==> turn6(variant_pattern(tileset_lut(44u8).0), 5) == 44);
    } else if mask == 45 {
        assert(has_bit(tileset_lut(45u8).1 as nat, 5) <==> turn6(variant_pattern(tileset_lut(45u8).0), 5) == 45);
    } else if mask == 46 {
        assert(has_bit(tileset_lut(46u8).1 as nat, 5) <==> turn6(variant_pattern(tileset_lut(46u8).0), 5) == 46);
    } else if mask == 47 {
        assert(has_bit(tileset_lut(47u8).1 as nat, 5) <==> turn6(variant_pattern(tileset_lut(47u8).0), 5) == 47);
    } else if mask == 48 {
        assert(has_bit(tileset_lut(48u8).1 as nat, 5) <==> turn6(variant_pattern(tileset_lut(48u8).0), 5) == 48);
    } else if mask == 49 {
        assert(has_bit(tileset_lut(49u8).1 as nat, 5) <==> turn6(variant_pattern(tileset_lut(49u8).0), 5) == 49);
    } else if mask == 50 {
        assert(has_bit(tileset_lut(50u8).1 as nat, 5) <==> turn6(variant_pattern(tileset_lut(50u8).0), 5) == 50);
    } else if mask == 51 {
        assert(has_bit(tileset_lut(51u8).1 as nat, 5) <==> turn6(variant_pattern(tileset_lut(51u8).0), 5) == 51);
    } else if mask == 52 {
        assert(has_bit(tileset_lut(52u8).1 as nat, 5) <==> turn6(variant_pattern(tileset_lut(52u8).0), 5) == 52);
    } else if mask == 53 {
        assert(has_bit(tileset_lut(53u8).1 as nat, 5) <==> turn6(variant_pattern(tileset_lut(53u8).0), 5) == 53);
    } else if mask == 54 {
        assert(has_bit(tileset_lut(54u8).1 as nat, 5) <==> turn6(variant_pattern(tileset_lut(54u8).0), 5) == 54);
    } else if mask == 55 {
        assert(has_bit(tileset_lut(55u8).1 as nat, 5) <==> turn6(variant_pattern(tileset_lut(55u8).0), 5) == 55);
    } else if mask == 56 {
        assert(has_bit(tileset_lut(56u8).1 as nat, 5) <==> turn6(variant_pattern(tileset_lut(56u8).0), 5) == 56);
    } else if mask == 57 {
        assert(has_bit(tileset_lut(57u8).1 as nat, 5) <==> turn6(variant_pattern(tileset_lut(57u8).0), 5) == 57);
    } else if mask == 58 {
        assert(has_bit(tileset_lut(58u8).1 as nat, 5) <==> turn6(variant_pattern(tileset_lut(58u8).0), 5) == 58);
    } else if mask == 59 {
        assert(has_bit(tileset_lut(59u8).1 as nat, 5) <==> turn6(variant_pattern(tileset_lut(59u8).0), 5) == 59);
    } else if mask == 60 {
        assert(has_bit(tileset_lut(60u8).1 as nat, 5) <==> turn6(variant_pattern(tileset_lut(60u8).0), 5) == 60);
    } else if mask == 61 {
        assert(has_bit(tileset_lut(61u8).1 as nat, 5) <==> turn6(variant_pattern(tileset_lut(61u8).0), 5) == 61);
    } else if mask == 62 {
        assert(has_bit(tileset_lut(62u8).1 as nat, 5) <==> turn6(variant_pattern(tileset_lut(62u8).0), 5) == 62);
    } else if mask == 63 {
        assert(has_bit(tileset_lut(63u8).1 as nat, 5) <==> turn6(variant_pattern(tileset_lut(63u8).0), 5) == 63);
    }
}

proof fn lemma_tileset_turn_5(mask: u8)
    requires
        mask < 64,
    ensures
        has_bit(tileset_lut(mask).1 as nat, 5) <==> turn6(variant_pattern(tileset_lut(mask).0), 5) == mask,
{
    if mask < 32 {
        lemma_tileset_turn_5_0(mask);
    } else {
        lemma_tileset_turn_5_1(mask);
    }
}

/// The asset kind of a tile (see `ass3d_kind_of`).
pub fn ass3d_kind(kind: TileKind, gent: Option<TileGentKind>) -> (r: Ass3dTileKind)
    ensures
        r == ass3d_kind_of(kind, gent),
{
    match (kind, gent) {
        (_, Some(TileGentKind::Cit)) => Ass3dTileKind::Cit,
        (_, Some(TileGentKind::Structure(StructureKind::Barricade))) => Ass3dTileKind::WallMid,
        (_, Some(TileGentKind::Structure(StructureKind::Bridge))) => Ass3dTileKind::Bridge,
        (_, Some(TileGentKind::Structure(StructureKind::WatchTower))) => Ass3dTileKind::Tower,
        (TileKind::Water, _) => Ass3dTileKind::Water,
        (TileKind::Fertile, _) => Ass3dTileKind::Fertile,
        (TileKind::Destroyed, _) => Ass3dTileKind::Destroyed,
        (TileKind::Mountain, _) => Ass3dTileKind::Mountain,
        (TileKind::Forest, _) => Ass3dTileKind::Forest,
        (TileKind::FoundationRoad, _) => Ass3dTileKind::Road,
        (TileKind::Regular, _) => Ass3dTileKind::Regular,
        _ => Ass3dTileKind::BadTile,
    }
}

/// Whether a neighbour joins a tile (see `neigh_joins`).
fn joins_tile(k: Ass3dTileKind, n: TileKind) -> (r: bool)
    ensures
        r == neigh_joins(k, n),
{
    match k {
        Ass3dTileKind::Water => n == TileKind::Water,
        Ass3dTileKind::Regular => n != TileKind::Water && n != TileKind::Mountain,
        Ass3dTileKind::Fertile => n != TileKind::Water,
        Ass3dTileKind::Forest => n == TileKind::Forest,
        Ass3dTileKind::Mountain => n == TileKind::Mountain,
        Ass3dTileKind::Destroyed => n != TileKind::Water,
        Ass3dTileKind::HarvestedFertile => n != TileKind::Water,
        Ass3dTileKind::HarvestedRegular => n != TileKind::Water && n != TileKind::Mountain,
        Ass3dTileKind::HarvestedForest => n == TileKind::Forest,
        Ass3dTileKind::HarvestedMountain => n == TileKind::Mountain,
        Ass3dTileKind::Road => n == TileKind::FoundationRoad,
        Ass3dTileKind::Bridge => n != TileKind::Water && n != TileKind::Mountain && n != TileKind::Forest,
        _ => false,
    }
}

/// The neighbour mask of a tile of asset kind `k` whose neighbours (in the
/// order of `Hex::iter_n1`) have the terrains `neighs`.
pub fn tile_neighmask(k: Ass3dTileKind, neighs: [TileKind; 6]) -> (r: u8)
    ensures
        r == neighmask_of(k, neighs),
        r < 64,
{
    let mut r: u8 = 0;
    if joins_tile(k, neighs[0]) {
        r = r + 1;
    }
    if joins_tile(k, neighs[1]) {
        r = r + 2;
    }
    if joins_tile(k, neighs[2]) {
        r = r + 4;
    }
    if joins_tile(k, neighs[3]) {
        r = r + 8;
    }
    if joins_tile(k, neighs[4]) {
        r = r + 16;
    }
    if joins_tile(k, neighs[5]) {
        r = r + 32;
    }
    r
}

/// The tileset variant and allowed rotations for a neighbour mask (see
/// `tileset_lut`).
pub fn tileset_variant(mask: u8) -> (r: (Ass3dTileVariant, u8))
    requires
        mask < 64,
    ensures
        r == tileset_lut(mask),
{
    match mask {
        0 => (Ass3dTileVariant::V0, 0b111111),
        1 => (Ass3dTileVariant::V1, 0b000001),
        2 => (Ass3dTileVariant::V1, 0b000010),
        3 => (Ass3dTileVariant::V2A, 0b000001),
        4 => (Ass3dTileVariant::V1, 0b000100),
        5 => (Ass3dTileVariant::V2B, 0b000001),
        6 => (Ass3dTileVariant::V2A, 0b000010),
        7 => (Ass3dTileVariant::V3A, 0b000001),
        8 => (Ass3dTileVariant::V1, 0b001000),
        9 => (Ass3dTileVariant::V2C, 0b001001),
        10 => (Ass3dTileVariant::V2B, 0b000010),
        11 => (Ass3dTileVariant::V3B, 0b000001),
        12 => (Ass3dTileVariant::V2A, 0b000100),
        13 => (Ass3dTileVariant::V3C, 0b000100),
        14 => (Ass3dTileVariant::V3A, 0b000010),
        15 => (Ass3dTileVariant::V4A, 0b000001),
        16 => (Ass3dTileVariant::V1, 0b010000),
        17 => (Ass3dTileVariant::V2B, 0b010000),
        18 => (Ass3dTileVariant::V2C, 0b010010),
        19 => (Ass3dTileVariant::V3C, 0b000001),
        20 => (Ass3dTileVariant::V2B, 0b000100),
        21 => (Ass3dTileVariant::V3D, 0b010101),
        22 => (Ass3dTileVariant::V3B, 0b000010),
        23 => (Ass3dTileVariant::V4B, 0b000001),
        24 => (Ass3dTileVariant::V2A, 0b001000),
        25 => (Ass3dTileVariant::V3B, 0b001000),
        26 => (Ass3dTileVariant::V3C, 0b001000),
        27 => (Ass3dTileVariant::V4C, 0b001001),
        28 => (Ass3dTileVariant::V3A, 0b000100),
        29 => (Ass3dTileVariant::V4B, 0b000100),
        30 => (Ass3dTileVariant::V4A, 0b000010),
        31 => (Ass3dTileVariant::V5, 0b000001),
        32 => (Ass3dTileVariant::V1, 0b100000),
        33 => (Ass3dTileVariant::V2A, 0b100000),
        34 => (Ass3dTileVariant::V2B, 0b100000),
        35 => (Ass3dTileVariant::V3A, 0b100000),
        36 => (Ass3dTileVariant::V2C, 0b100100),
        37 => (Ass3dTileVariant::V3B, 0b100000),
        38 => (Ass3dTileVariant::V3C, 0b000010),
        39 => (Ass3dTileVariant::V4A, 0b100000),
        40 => (Ass3dTileVariant::V2B, 0b001000),
        41 => (Ass3dTileVariant::V3C, 0b100000),
        42 => (Ass3dTileVariant::V3D, 0b101010),
        43 => (Ass3dTileVariant::V4B, 0b100000),
        44 => (Ass3dTileVariant::V3B, 0b000100),
        45 => (Ass3dTileVariant::V4C, 0b100100),
        46 => (Ass3dTileVariant::V4B, 0b000010),
        47 => (Ass3dTileVariant::V5, 0b100000),
        48 => (Ass3dTileVariant::V2A, 0b010000),
        49 => (Ass3dTileVariant::V3A, 0b010000),
        50 => (Ass3dTileVariant::V3B, 0b010000),
        51 => (Ass3dTileVariant::V4A, 0b010000),
        52 => (Ass3dTileVariant::V3C, 0b010000),
        53 => (Ass3dTileVariant::V4B, 0b010000),
        54 => (Ass3dTileVariant::V4C, 0b010010),
        55 => (Ass3dTileVariant::V5, 0b010000),
        56 => (Ass3dTileVariant::V3A, 0b001000),
        57 => (Ass3dTileVariant::V4A, 0b001000),
        58 => (Ass3dTileVariant::V4B, 0b001000),
        59 => (Ass3dTileVariant::V5, 0b001000),
        60 => (Ass3dTileVariant::V4A, 0b000100),
        61 => (Ass3dTileVariant::V5, 0b000100),
        62 => (Ass3dTileVariant::V5, 0b000010),
        _ => (Ass3dTileVariant::V6, 0b111111),
    }
}

/// The number of rotations allowed by a rotation mask.
pub fn count_rotations(allowed: u8) -> (n: u32)
    ensures
        n == bits_below(allowed as nat, 6),
        n <= 6,
{
    let mut ri: u8 = 0;
    let mut pw: u8 = 1;
    let mut n: u32 = 0;
    while ri < 6
        invariant
            ri <= 6,
            pw == p2(ri as int),
            n == bits_below(allowed as nat, ri as int),
            n <= ri,
        decreases 6 - ri,
    {
        if (allowed / pw) % 2 == 1 {
            n = n + 1;
        }
        ri = ri + 1;
        pw = if ri < 6 { pw * 2 } else { 64 };
    }
    n
}

/// The rotation picked as the `pick`-th (from 0, lowest bit first) of the
/// rotations allowed by a rotation mask.
pub fn pick_rotation(allowed: u8, pick: u32) -> (r: u8)
    requires
        pick < bits_below(allowed as nat, 6),
    ensures
        r < 6,
        has_bit(allowed as nat, r as int),
        bits_below(allowed as nat, r as int) == pick,
{
    let mut ri: u8 = 0;
    let mut pw: u8 = 1;
    let mut seen: u32 = 0;
    while ri < 6
        invariant
            ri <= 6,
            pw == p2(ri as int),
            seen == bits_below(allowed as nat, ri as int),
            seen <= pick,
            pick < bits_below(allowed as nat, 6),
        decreases 6 - ri,
    {
        if (allowed / pw) % 2 == 1 {
            if seen == pick {
                return ri;
            }
            seen = seen + 1;
        }
        ri = ri + 1;
        pw = if ri < 6 { pw * 2 } else { 64 };
    }
    0
}

/// The 3D asset of a tile of terrain `kind`, with `gent` standing on it and
/// neighbours of the terrains `neighs` (missing neighbours count as water):
/// the `rotation_pick`-th allowed rotation is used, and `subvariant` is kept.
pub fn tile_ass3d_with(
    kind: TileKind,
    gent: Option<TileGentKind>,
    neighs: [TileKind; 6],
    rotation_pick: u32,
    subvariant: [u8; 3],
) -> (r: TileAss3d)
    requires
        rotation_pick < bits_below(tileset_lut(neighmask_of(ass3d_kind_of(kind, gent), neighs) as u8).1 as nat, 6),
    ensures
        r.kind == ass3d_kind_of(kind, gent),
        r.neighmask == neighmask_of(r.kind, neighs),
        r.variant == tileset_lut(r.neighmask).0,
        r.rotation < 6,
        has_bit(tileset_lut(r.neighmask).1 as nat, r.rotation as int),
        bits_below(tileset_lut(r.neighmask).1 as nat, r.rotation as int) == rotation_pick,
        r.subvariant == subvariant,
{
    let ass_kind = ass3d_kind(kind, gent);
    let neighmask = tile_neighmask(ass_kind, neighs);
    let (variant, allowed) = tileset_variant(neighmask);
    let rotation = pick_rotation(allowed, rotation_pick);
    TileAss3d { kind: ass_kind, variant, rotation, neighmask, subvariant }
}

/// The number of rotations that the asset of such a tile may use: what
/// `tile_ass3d_with` may be asked to pick from.
pub fn tile_rotation_choices(kind: TileKind, gent: Option<TileGentKind>, neighs: [TileKind; 6]) -> (n: u32)
    ensures
        n == bits_below(tileset_lut(neighmask_of(ass3d_kind_of(kind, gent), neighs) as u8).1 as nat, 6),
        1 <= n <= 6,
{
    let neighmask = tile_neighmask(ass3d_kind(kind, gent), neighs);
    let (_variant, allowed) = tileset_variant(neighmask);
    proof {
        lemma_tileset_rotations(neighmask, 0);
        lemma_some_bit(allowed as nat);
    }
    count_rotations(allowed)
}

/// A nonzero six-bit mask has a set bit.
proof fn lemma_some_bit(m: nat)
    requires
        0 < m < 64,
    ensures
        bits_below(m, 6) >= 1,
{
    reveal_with_fuel(bits_below, 7);
}

/// `Rng::gen_range(0..n)` on the thread's random generator: a number below
/// `n`, drawn at random.
#[verifier::external_body]
fn random_below(n: u32) -> (r: u32)
    requires
        n > 0,
    ensures
        r < n,
{
    rand::thread_rng().gen_range(0..n)
}

/// `Rng::gen` on the thread's random generator: three random bytes. Nothing
/// is stated of their values.
#[verifier::external_body]
fn random_subvariant() -> (r: [u8; 3]) {
    rand::thread_rng().gen()
}

/// The 3D asset of a tile (see `tile_ass3d_with`), with one of the allowed
/// rotations and the model alternatives picked at random.
pub fn compute_tile_ass3d(kind: TileKind, gent: Option<TileGentKind>, neighs: [TileKind; 6]) -> (r: TileAss3d)
    ensures
        r.kind == ass3d_kind_of(kind, gent),
        r.neighmask == neighmask_of(r.kind, neighs),
        r.variant == tileset_lut(r.neighmask).0,
        r.rotation < 6,
        has_bit(tileset_lut(r.neighmask).1 as nat, r.rotation as int),
        turn6(variant_pattern(r.variant), r.rotation as int) == r.neighmask,
{
    let n = tile_rotation_choices(kind, gent, neighs);
    let pick = random_below(n);
    let subvariant = random_subvariant();
    let r = tile_ass3d_with(kind, gent, neighs, pick, subvariant);
    proof {
        lemma_tileset_rotations(r.neighmask, r.rotation as int);
    }
    r
}

/// Which 3D graphics implementation to use.
#[derive(Debug, Clone, Copy, PartialEq, Eq, Structural)]
pub enum Gfx3dImpl {
    Simple,
    Bespoke,
}

impl Default for Gfx3dImpl {
    fn default() -> (r: Self)
        ensures
            r == Gfx3dImpl::Bespoke,
    {
        Gfx3dImpl::Bespoke
    }
}

/// Groups of 3D graphics systems, by the implementation they belong to.
#[derive(Debug, Clone, Copy, PartialEq, Eq, Hash, Structural)]
pub enum Gfx3dImplSet {
    Any,
    Simple,
    Bespoke,
}

/// Whether any 3D implementation is configured.
pub fn rc_gfx3d_any(setting: Option<Gfx3dImpl>) -> (r: bool)
    ensures
        r == (setting == Some(Gfx3dImpl::Bespoke) || setting == Some(Gfx3dImpl::Simple)),
{
    match setting {
        Some(s) => s == Gfx3dImpl::Bespoke || s == Gfx3dImpl::Simple,
        None => false,
    }
}

/// Whether the simple 3D implementation is configured.
pub fn rc_gfx3d_simple(setting: Option<Gfx3dImpl>) -> (r: bool)
    ensures
        r == (setting == Some(Gfx3dImpl::Simple)),
{
    match setting {
        Some(s) => s == Gfx3dImpl::Simple,
        None => false,
    }
}

/// Whether the bespoke 3D implementation is configured.
pub fn rc_gfx3d_bespoke(setting: Option<Gfx3dImpl>) -> (r: bool)
    ensures
        r == (setting == Some(Gfx3dImpl::Bespoke)),
{
    match setting {
        Some(s) => s == Gfx3dImpl::Bespoke,
        None => false,
    }
}

} // verus!
