use std::collections::HashSet;

use minewars::grid::hex::Hex;
use minewars::grid::sq::Sq;
use minewars::grid::pos::Pos;

#[test]
fn neighs() {
    let mut n0: HashSet<Hex> = Hex::ring_offsets().iter().map(|c| c.add(Hex(-3, 6))).collect();
    let mut n1: HashSet<Hex> = Hex::ring_offsets().iter().map(|c| c.add(Hex(6, -7))).collect();
    let mut n2: HashSet<Hex> = Hex::diag_offsets().iter().map(|c| c.add(Hex(-8, 5))).collect();

    // iterators return the sets in no particular order
    for c in Hex(-3, 6).iter_n0() {
        assert!(n0.remove(&c));
    }
    for c in Hex(6, -7).iter_n1() {
        assert!(n1.remove(&c));
    }
    for c in Hex(-8, 5).iter_n2() {
        assert!(n2.remove(&c));
    }
    assert!(n0.is_empty());
    assert!(n1.is_empty());
    assert!(n2.is_empty());
}

#[test]
fn index() {
    assert_eq!(Hex::index(3, Hex(-3, 0)), 0);
    assert_eq!(Hex::index(3, Hex(-2, 3)), Hex::row_len(3, -3) + (1 + 3));
    assert_eq!(
        Hex::index(3, Hex(0, 2)),
        Hex::row_len(3, -3) + Hex::row_len(3, -2) + Hex::row_len(3, -1) + (3 + 2)
    );
    assert_eq!(
        Hex::index(3, Hex(2, -1)),
        Hex::row_len(3, -3)
            + Hex::row_len(3, -2)
            + Hex::row_len(3, -1)
            + Hex::row_len(3, 0)
            + Hex::row_len(3, 1)
            + 2
    );
    assert_eq!(Hex::index(3, Hex(3, 0)), Hex::map_area(3) - 1);
}

#[test]
fn hex_map_area_counts_every_tile() {
    assert_eq!(Hex::map_area(1), 7);
    assert_eq!(Hex::map_area(3), 37);
    assert_eq!(Hex::iter_coords(3).len(), 37);
    // the dense index visits every tile of the map once, in order
    for (i, c) in Hex::iter_coords(3).into_iter().enumerate() {
        assert_eq!(Hex::index(3, c), i);
    }
}

#[test]
fn hex_distance_and_ring() {
    assert_eq!(Hex(0, 0).distance(Hex(2, -1)), 2);
    assert_eq!(Hex(2, -1).ring(), 2);
    assert_eq!(Hex(-3, 3).ring(), 3);
    assert_eq!(Hex::ring_len(4), 24);
    let ring = Hex(1, 1).iter_ring(2);
    assert_eq!(ring.len(), 12);
    for c in ring {
        assert_eq!(c.distance(Hex(1, 1)), 2);
    }
}

#[test]
fn hex_xmin_xmax() {
    assert_eq!(Hex::xmin(3, -3), 0);
    assert_eq!(Hex::xmax(3, -3), 3);
    assert_eq!(Hex::xmin(3, 3), -3);
    assert_eq!(Hex::xmax(3, 3), 0);
    assert_eq!(Hex::row_len(3, 0), 7);
}

#[test]
fn sq_grid() {
    assert_eq!(Sq(0, 0).distance(Sq(3, -2)), 3);
    assert_eq!(Sq(3, -5).ring(), 5);
    assert_eq!(Sq::map_area(2), 25);
    assert_eq!(Sq::index(2, Sq(-2, -2)), 0);
    assert_eq!(Sq::index(2, Sq(2, 2)), 24);
    assert_eq!(Sq(0, 0).iter_n1().len(), 8);
    assert_eq!(Sq(0, 0).iter_ring(2).len(), 16);
}

#[test]
fn pos_arithmetic() {
    let p = Pos(3, -4);
    assert_eq!(p.y(), 3);
    assert_eq!(p.x(), -4);
    assert_eq!(p.add(Pos(1, 1)), Pos(4, -3));
    assert_eq!(p.sub(Pos(1, 1)), Pos(2, -5));
    assert_eq!(p.neg(), Pos(-3, 4));
    assert_eq!(Pos::origin(), Pos(0, 0));
}

#[test]
fn hex_diagonals_at_distance_two() {
    let c = Hex(-8, 5);
    let mut d: Vec<Hex> = c.iter_n2();
    d.sort();
    let mut expected = vec![Hex(-9, 7), Hex(-7, 6), Hex(-6, 4), Hex(-7, 3), Hex(-9, 4), Hex(-10, 6)];
    expected.sort();
    assert_eq!(d, expected);
    for x in c.iter_n2() {
        assert_eq!(c.distance(x), 2);
    }
}
