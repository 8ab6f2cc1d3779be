use minewars::game::{StructureKind, TileKind};
use minewars::game::TileKind::{FoundationRoad, Forest, Mountain, Regular, Water};
use minewars::gfx3d::{
    ass3d_kind, compute_tile_ass3d, count_rotations, pick_rotation, rc_gfx3d_any, rc_gfx3d_bespoke,
    rc_gfx3d_simple, tile_ass3d_with, tile_neighmask, tile_rotation_choices, tileset_variant, Ass3dTileKind,
    Ass3dTileVariant, Gfx3dImpl, TileGentKind,
};

fn turn6(x: u8, r: u8) -> u8 {
    ((x << r) | (x >> (6 - r))) & 63
}

fn pattern(v: Ass3dTileVariant) -> u8 {
    match v {
        Ass3dTileVariant::V0 => 0,
        Ass3dTileVariant::V1 => 0b000001,
        Ass3dTileVariant::V2A => 0b000011,
        Ass3dTileVariant::V2B => 0b000101,
        Ass3dTileVariant::V2C => 0b001001,
        Ass3dTileVariant::V3A => 0b000111,
        Ass3dTileVariant::V3B => 0b001011,
        Ass3dTileVariant::V3C => 0b010011,
        Ass3dTileVariant::V3D => 0b010101,
        Ass3dTileVariant::V4A => 0b001111,
        Ass3dTileVariant::V4B => 0b010111,
        Ass3dTileVariant::V4C => 0b011011,
        Ass3dTileVariant::V5 => 0b011111,
        Ass3dTileVariant::V6 => 0b111111,
    }
}

#[test]
fn tileset_rotations_turn_pattern_onto_mask() {
    for mask in 0..64u8 {
        let (v, allowed) = tileset_variant(mask);
        assert!(allowed > 0 && allowed < 64);
        for r in 0..6u8 {
            assert_eq!(allowed >> r & 1 == 1, turn6(pattern(v), r) == mask, "mask {} rotation {}", mask, r);
        }
    }
    assert_eq!(tileset_variant(0b000110), (Ass3dTileVariant::V2A, 0b000010));
    assert_eq!(tileset_variant(0b101010), (Ass3dTileVariant::V3D, 0b101010));
}

#[test]
fn asset_kind() {
    assert_eq!(ass3d_kind(TileKind::Water, None), Ass3dTileKind::Water);
    assert_eq!(ass3d_kind(TileKind::Water, Some(TileGentKind::Cit)), Ass3dTileKind::Cit);
    assert_eq!(ass3d_kind(TileKind::Regular, Some(TileGentKind::Structure(StructureKind::Barricade))), Ass3dTileKind::WallMid);
    assert_eq!(ass3d_kind(TileKind::Regular, Some(TileGentKind::Structure(StructureKind::Road))), Ass3dTileKind::Regular);
    assert_eq!(ass3d_kind(TileKind::FoundationRoad, None), Ass3dTileKind::Road);
    assert_eq!(ass3d_kind(TileKind::FoundationStruct, None), Ass3dTileKind::BadTile);
}

#[test]
fn neighbour_masks() {
    let neighs = [Water, Mountain, Forest, Regular, Water, FoundationRoad];
    assert_eq!(tile_neighmask(Ass3dTileKind::Water, neighs), 0b010001);
    assert_eq!(tile_neighmask(Ass3dTileKind::Regular, neighs), 0b101100);
    assert_eq!(tile_neighmask(Ass3dTileKind::Fertile, neighs), 0b101110);
    assert_eq!(tile_neighmask(Ass3dTileKind::Mountain, neighs), 0b000010);
    assert_eq!(tile_neighmask(Ass3dTileKind::Road, neighs), 0b100000);
    assert_eq!(tile_neighmask(Ass3dTileKind::Bridge, neighs), 0b101000);
    assert_eq!(tile_neighmask(Ass3dTileKind::Cit, neighs), 0);
}

#[test]
fn rotation_picking() {
    assert_eq!(count_rotations(0b101010), 3);
    assert_eq!(pick_rotation(0b101010, 0), 1);
    assert_eq!(pick_rotation(0b101010, 1), 3);
    assert_eq!(pick_rotation(0b101010, 2), 5);
    assert_eq!(pick_rotation(0b111111, 4), 4);
}

#[test]
fn tile_assets() {
    let neighs = [Water, Water, Regular, Regular, Regular, Regular];
    assert_eq!(tile_rotation_choices(Water, None, neighs), 1);
    let a = tile_ass3d_with(Water, None, neighs, 0, [1, 2, 3]);
    assert_eq!(a.kind, Ass3dTileKind::Water);
    assert_eq!(a.neighmask, 0b000011);
    assert_eq!(a.variant, Ass3dTileVariant::V2A);
    assert_eq!(a.rotation, 0);
    assert_eq!(a.subvariant, [1, 2, 3]);

    let all_water = [Water; 6];
    assert_eq!(tile_rotation_choices(Water, None, all_water), 6);
    for _ in 0..50 {
        let a = compute_tile_ass3d(Water, None, all_water);
        assert_eq!(a.variant, Ass3dTileVariant::V6);
        assert!(a.rotation < 6);
        let b = compute_tile_ass3d(Regular, None, neighs);
        assert_eq!(b.neighmask, 0b111100);
        assert_eq!(turn6(pattern(b.variant), b.rotation), b.neighmask);
    }
}

#[test]
fn gfx3d_settings() {
    assert_eq!(Gfx3dImpl::default(), Gfx3dImpl::Bespoke);
    assert!(rc_gfx3d_any(Some(Gfx3dImpl::Simple)));
    assert!(!rc_gfx3d_any(None));
    assert!(rc_gfx3d_simple(Some(Gfx3dImpl::Simple)));
    assert!(!rc_gfx3d_simple(Some(Gfx3dImpl::Bespoke)));
    assert!(rc_gfx3d_bespoke(Some(Gfx3dImpl::Bespoke)));
    assert!(!rc_gfx3d_bespoke(None));
}
