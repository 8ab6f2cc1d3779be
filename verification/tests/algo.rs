use std::collections::{HashSet, VecDeque};

use minewars::algo::{flood_next, flood_select, reach, FloodSelect};
use minewars::grid::hex::Hex;

fn within(c: Hex, r: u8) -> bool {
    c.distance(Hex(0, 0)) <= r as u16
}

#[test]
fn reach_finds_goal_in_open_field() {
    let goal = Hex(0, 3);
    let mut q = Vec::new();
    let found = reach(&mut q, Hex(0, 0), |c: Hex| {
        if within(c, 5) { Some(c.distance(goal)) } else { None }
    });
    assert!(found);
    assert!(q.is_empty());
}

#[test]
fn reach_start_is_goal_leaves_queue() {
    let mut q = vec![(Hex(1, 1), 7)];
    assert!(reach(&mut q, Hex(0, 0), |c: Hex| Some(c.distance(Hex(0, 0)))));
    assert_eq!(q, vec![(Hex(1, 1), 7)]);
}

#[test]
fn reach_blocked_start_leaves_queue() {
    let mut q = vec![(Hex(1, 1), 7)];
    assert!(!reach(&mut q, Hex(0, 0), |_c: Hex| None));
    assert_eq!(q, vec![(Hex(1, 1), 7)]);
}

#[test]
fn reach_walled_in_fails() {
    // only the start can be stepped on
    let mut q = vec![(Hex(4, 4), 1)];
    let found = reach(&mut q, Hex(0, 0), |c: Hex| if c == Hex(0, 0) { Some(5) } else { None });
    assert!(!found);
    assert!(q.is_empty());
}

#[test]
fn flood_select_places_tiles() {
    let mut q: VecDeque<Hex> = VecDeque::new();
    q.push_back(Hex(0, 0));
    flood_select(&mut q, Hex(1, 0), FloodSelect::Yes);
    flood_select(&mut q, Hex(2, 0), FloodSelect::YesPrio);
    flood_select(&mut q, Hex(3, 0), FloodSelect::No);
    assert_eq!(q.iter().copied().collect::<Vec<_>>(), vec![Hex(2, 0), Hex(0, 0), Hex(1, 0)]);
}

#[test]
fn flood_next_takes_front() {
    let mut q: VecDeque<Hex> = VecDeque::new();
    assert!(flood_next(&mut q).is_none());
    q.push_back(Hex(1, 2));
    q.push_back(Hex(3, 4));
    let (orig, nb) = flood_next(&mut q).unwrap();
    assert_eq!(orig, Hex(1, 2));
    assert_eq!(nb, Hex(1, 2).iter_n0());
    assert_eq!(q.len(), 1);
}

#[test]
fn flood_fills_disc() {
    let mut q: VecDeque<Hex> = VecDeque::new();
    let mut seen: HashSet<Hex> = HashSet::new();
    q.push_back(Hex(0, 0));
    seen.insert(Hex(0, 0));
    while let Some((_orig, nb)) = flood_next(&mut q) {
        for c in nb {
            let sel = if within(c, 2) && seen.insert(c) { FloodSelect::Yes } else { FloodSelect::No };
            flood_select(&mut q, c, sel);
        }
    }
    assert_eq!(seen.len(), 19);
}

#[test]
fn reach_keeps_one_tile_per_cost() {
    // the dead end (-1,0) and the way on (0,1) have the same cost: only the
    // first one found is queued, so the goal behind (0,1) is not reached
    let cost = |c: Hex| match (c.0, c.1) {
        (0, 0) => Some(2),
        (-1, 0) => Some(1),
        (0, 1) => Some(1),
        (0, 2) => Some(0),
        _ => None,
    };
    let mut q = Vec::new();
    assert!(!reach(&mut q, Hex(0, 0), cost));
    assert!(q.is_empty());
}
