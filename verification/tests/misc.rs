use std::collections::HashSet;

use minewars::auth::{Args, Config};
use minewars::game::{ItemKind, StructureKind, TileKind};
use minewars::game::map::{fertilize_land, HexTerrain};
use minewars::grid::hex::Hex;
use minewars::game::fog::compute_fog_of_war;
use minewars::msg::repr::{Msg, MsgItem, MsgPlayer, MsgStructureKind, MsgTileKind};
use minewars::game::event::{MwEv, PlayerEv};
use minewars::grid::pos::Pos;
use minewars::net::{check_list, ControlListMode};
use minewars::plid::{PlayerId, Plids};
use minewars::proto::host::HandshakeError;
use minewars::proto::hostrpc::{KillSessionError, ReloadConfigError};
use minewars::time::MwDur;

#[test]
fn control_lists() {
    let list: HashSet<u64> = [1, 2, 3].into_iter().collect();
    assert!(check_list(ControlListMode::Allowlist, &list, &2));
    assert!(!check_list(ControlListMode::Allowlist, &list, &4));
    assert!(!check_list(ControlListMode::Denylist, &list, &2));
    assert!(check_list(ControlListMode::Denylist, &list, &4));
}

#[test]
fn player_ids() {
    assert_eq!(PlayerId::from_u8(0), PlayerId::Neutral);
    assert_eq!(PlayerId::from_u8(3), PlayerId::Player(3));
    assert_eq!(PlayerId::Player(3).i(), 3);
    assert_eq!(u8::from(PlayerId::Neutral), 0);
    let p = Plids::with_spect(PlayerId::Player(2));
    assert!(p.contains(PlayerId::Neutral));
    assert!(p.contains(PlayerId::Player(2)));
    assert!(!p.contains(PlayerId::Player(3)));
    assert!(Plids::all(true).contains_all(p));
    assert!(!Plids::spect().contains_any(Plids::from(PlayerId::Player(1))));
}

#[test]
fn durations() {
    assert_eq!(MwDur(100).as_millis(), 100);
    assert_eq!(MwDur::from_millis_lossy(127), MwDur(127));
    assert_eq!(MwDur::from_millis_lossy(200).as_millis(), 200);
    assert_eq!(MwDur::from_millis_lossy(1000).as_millis(), 1000);
    assert_eq!(MwDur::from_millis_lossy(65535), MwDur(255));
}

#[test]
fn message_kinds() {
    assert_eq!(MsgTileKind::from(TileKind::FoundationRoad), MsgTileKind::Foundation);
    assert_eq!(MsgTileKind::from(TileKind::FoundationStruct), MsgTileKind::Foundation);
    assert_eq!(MsgTileKind::from(TileKind::Mountain).to_u8(), 2);
    assert_eq!(MsgTileKind::from_u8(1), None);
    assert_eq!(MsgTileKind::from_u8(7), Some(MsgTileKind::Fertile));
    assert_eq!(MsgItem::from(ItemKind::Safe), MsgItem::NoItem);
    assert_eq!(MsgItem::from(ItemKind::Mine).to_u8(), 2);
    assert_eq!(MsgStructureKind::from(StructureKind::Barricade), MsgStructureKind::Wall);
    assert_eq!(MsgStructureKind::from(StructureKind::WatchTower).to_u8(), 3);
    assert_eq!(MsgStructureKind::from_u8(4), None);
}

#[test]
fn protocol_messages() {
    assert_eq!(HandshakeError::Full.message(), "Session full. There is no space for you.");
    assert_eq!(HandshakeError::Banned.message(), "You are banned from this server.");
    assert_eq!(KillSessionError::UnknownSession.message(), "No such session exists.");
    assert_eq!(ReloadConfigError::Reason("bad file".to_string()).message(), "bad file");
}

#[test]
fn config_cli() {
    let mut c = Config {};
    c.apply_cli(&Args {});
    assert_eq!(c, Config {});
}

fn terrain_with(radius: u8, water: &dyn Fn(Hex) -> bool) -> HexTerrain {
    let mut kinds = vec![TileKind::Regular; Hex::map_area(radius)];
    for c in Hex::iter_coords(radius) {
        if water(c) {
            kinds[Hex::index(radius, c)] = TileKind::Water;
        }
    }
    HexTerrain { radius, kinds }
}

#[test]
fn fertilize_coast_ring() {
    // water on the outermost ring: the ring inside it becomes fertile,
    // and the walk stops at the first ring where nothing changed
    let mut map = terrain_with(3, &|c: Hex| c.ring() == 3);
    fertilize_land(&mut map, 1);
    for c in Hex::iter_coords(3) {
        let k = map.kinds[Hex::index(3, c)];
        match c.ring() {
            3 => assert_eq!(k, TileKind::Water),
            2 => assert_eq!(k, TileKind::Fertile),
            _ => assert_eq!(k, TileKind::Regular),
        }
    }
}

#[test]
fn fertilize_inner_lake_unreached() {
    // a lake at the centre is not reached: the outer land ring has no water
    // near it, so the walk stops right away
    let mut map = terrain_with(3, &|c: Hex| c.ring() == 0);
    let before = map.kinds.clone();
    fertilize_land(&mut map, 1);
    assert_eq!(map.kinds, before);
}

#[test]
fn fertilize_depth_two() {
    // at depth 2 the two rings inside the water have water two steps away;
    // ring 1 is two steps from ring 3 only, which is land by then
    let mut map = terrain_with(4, &|c: Hex| c.ring() == 4);
    fertilize_land(&mut map, 2);
    for c in Hex::iter_coords(4) {
        let k = map.kinds[Hex::index(4, c)];
        match c.ring() {
            4 => assert_eq!(k, TileKind::Water),
            3 | 2 => assert_eq!(k, TileKind::Fertile),
            _ => assert_eq!(k, TileKind::Regular),
        }
    }
}

#[test]
fn fertilize_small_map_unchanged() {
    let mut map = terrain_with(1, &|c: Hex| c.ring() == 1);
    let before = map.kinds.clone();
    fertilize_land(&mut map, 1);
    assert_eq!(map.kinds, before);
}

fn owners_of(list: &[(Hex, PlayerId)]) -> impl Fn(Hex) -> Option<PlayerId> + '_ {
    move |c: Hex| list.iter().find(|(h, _)| *h == c).map(|(_, p)| *p)
}

#[test]
fn fog_gained_tile_reveals_neighbours() {
    let me = PlayerId::Player(1);
    let owners = [(Hex(0, 0), me)];
    let mut q = vec![Hex(5, 5)];
    let ups = compute_fog_of_war(1, &mut q, me, &[Hex(0, 0)], owners_of(&owners));
    let mut expected = vec![(Hex(0, 0), true)];
    for c in Hex(0, 0).iter_ring(1) {
        expected.push((c, true));
    }
    assert_eq!(ups, expected);
    assert!(q.is_empty());
}

#[test]
fn fog_lost_tile_rechecked_in_order() {
    let me = PlayerId::Player(1);
    let other = PlayerId::Player(2);
    let owners = [(Hex(0, 0), other), (Hex(0, 1), me), (Hex(3, 3), other)];
    let mut q = Vec::new();
    let ups = compute_fog_of_war(1, &mut q, me, &[Hex(0, 0), Hex(3, 3)], owners_of(&owners));
    // (0,0) sees my tile next to it; (0,1) is mine; (3,3) is alone
    assert_eq!(ups, vec![(Hex(0, 0), true), (Hex(0, 1), true), (Hex(3, 3), false)]);
    assert!(q.is_empty());
}

#[test]
fn fog_radius_two_reaches_further() {
    let me = PlayerId::Player(1);
    let other = PlayerId::Player(2);
    let owners = [(Hex(0, 0), other), (Hex(0, 2), me)];
    let mut q = Vec::new();
    let near = compute_fog_of_war(1, &mut q, me, &[Hex(0, 0)], owners_of(&owners));
    assert_eq!(near, vec![(Hex(0, 0), false)]);
    let far = compute_fog_of_war(2, &mut q, me, &[Hex(0, 0)], owners_of(&owners));
    assert_eq!(far, vec![(Hex(0, 0), true), (Hex(0, 2), true)]);
}

#[test]
fn fog_unowned_tiles_ignored() {
    let me = PlayerId::Player(1);
    let owners: [(Hex, PlayerId); 0] = [];
    let mut q = vec![Hex(1, 1), Hex(2, 2)];
    let ups = compute_fog_of_war(2, &mut q, me, &[Hex(0, 0), Hex(1, -1)], owners_of(&owners));
    assert!(ups.is_empty());
    assert!(q.is_empty());
}

#[test]
fn msg_of_events() {
    let ev = MwEv::TileKind { pos: Pos(1, 2), kind: TileKind::FoundationRoad };
    assert_eq!(Msg::of_ev(&ev), Msg::TileKind { pos: Pos(1, 2), kind: MsgTileKind::Foundation });
    let ev = MwEv::RevealItem { pos: Pos(0, 0), item: ItemKind::Safe };
    assert_eq!(Msg::of_ev(&ev), Msg::RevealItem { pos: Pos(0, 0), item: MsgItem::NoItem });
    let ev = MwEv::Player { plid: PlayerId::Player(2), subplid: None, ev: PlayerEv::Joined { name: "x".to_string() } };
    assert_eq!(Msg::of_ev(&ev), Msg::Player { plid: PlayerId::Player(2), subplid: None, status: MsgPlayer::Joined });
    let ev = MwEv::Player { plid: PlayerId::Player(1), subplid: Some(3), ev: PlayerEv::Timeout { duration: MwDur(9) } };
    assert_eq!(Msg::of_ev(&ev), Msg::Player { plid: PlayerId::Player(1), subplid: Some(3), status: MsgPlayer::Timeout { duration: MwDur(9) } });
    assert_eq!(Msg::of_ev(&MwEv::Debug(1, Pos(0, 0))), Msg::Nop);
    assert_eq!(Msg::of_ev(&MwEv::BuildNew { pos: Pos(3, 3), kind: StructureKind::Barricade, pts: 7 }),
        Msg::BuildNew { pos: Pos(3, 3), kind: MsgStructureKind::Wall, pts: 7 });
}

#[test]
fn plids_iter_in_order_then_none() {
    let s = Plids(0b1010_0111);
    let mut it = s.iter(Some(5));
    assert_eq!(it.next(), Some(PlayerId::Neutral));
    assert_eq!(it.next(), Some(PlayerId::Player(1)));
    assert_eq!(it.next(), Some(PlayerId::Player(2)));
    assert_eq!(it.next(), Some(PlayerId::Player(5)));
    assert_eq!(it.next(), None);
    assert_eq!(it.next(), None);
    let mut all = s.iter(None);
    let mut got = Vec::new();
    while let Some(p) = all.next() {
        got.push(p);
    }
    assert_eq!(got, vec![PlayerId::Neutral, PlayerId::Player(1), PlayerId::Player(2), PlayerId::Player(5), PlayerId::Player(7)]);
}
