use hexlib::{
    hex_map_from_hex_set, make_hexagon, make_parallelogram, make_rectangle, make_triangle,
    FractionalHex, Hex, Tile,
};

#[test]
fn hexagon_of_radius_one_is_origin_and_neighbors() {
    let v = make_hexagon(1);
    assert_eq!(v.len(), 7);
    let origin = Hex::new(0, 0, 0);
    assert!(v.contains(&origin));
    for n in origin.neighbors() {
        assert!(v.contains(&n));
    }
}

#[test]
fn hexagon_of_negative_radius_is_empty() {
    assert!(make_hexagon(-1).is_empty());
    assert_eq!(make_hexagon(0), vec![Hex::new(0, 0, 0)]);
}

#[test]
fn parallelogram_two_by_two() {
    let v = make_parallelogram(2, 2);
    assert_eq!(
        v,
        vec![Hex::new(0, 0, 0), Hex::new(0, 1, -1), Hex::new(1, 0, -1), Hex::new(1, 1, -2)]
    );
}

#[test]
fn triangle_of_size_two() {
    let v = make_triangle(2);
    assert_eq!(
        v,
        vec![
            Hex::new(0, 2, -2),
            Hex::new(1, 1, -2),
            Hex::new(1, 2, -3),
            Hex::new(2, 0, -2),
            Hex::new(2, 1, -3),
            Hex::new(2, 2, -4),
        ]
    );
}

#[test]
fn rectangle_follows_offset_rows() {
    let v = make_rectangle(1, 1);
    assert_eq!(
        v,
        vec![Hex::new(0, 0, 0), Hex::new(0, 1, -1), Hex::new(1, -1, 0), Hex::new(1, 0, -1)]
    );
    assert_eq!(make_rectangle(3, 2).len(), 12);
}

#[test]
fn map_holds_a_fresh_tile_per_coordinate() {
    let m = hex_map_from_hex_set(make_hexagon(1));
    assert_eq!(m.len(), 7);
    let t = m.get(&Hex::new(0, -1, 1)).unwrap();
    assert_eq!(t, Tile::new(Hex::new(0, -1, 1)));
    assert_eq!(t.population, 0);
    assert!(!t.selected);
    assert!(m.get(&Hex::new(2, -1, -1)).is_none());
}

#[test]
fn rounding_breaks_ties_in_priority_order() {
    // (0.5, 0.5, -1.0): q and r tie, so r is recomputed.
    let f = FractionalHex::new(1, 1, -2, 2);
    assert_eq!(f.round(), Hex::new(1, 0, -1));
    // (0.4, 0.4, -0.8): r is further from its rounding than s.
    let g = FractionalHex::new(2, 2, -4, 5);
    assert_eq!(g.round(), Hex::new(0, 1, -1));
    // (1.2, -0.3, -0.9): q has the greatest discrepancy.
    let h = FractionalHex::new(12, -3, -9, 10);
    assert_eq!(h.round(), Hex::new(1, 0, -1));
    // negative halves round away from zero
    let k = FractionalHex::new(-5, 3, 2, 2);
    assert_eq!(k.round(), Hex::new(-3, 2, 1));
}

#[test]
fn fractional_arithmetic() {
    let a = FractionalHex::new(1, 2, -3, 2);
    let b = FractionalHex::new(1, -1, 0, 3);
    assert_eq!(a.add(b), FractionalHex::new(5, 4, -9, 6));
    assert_eq!(a.sub(b), FractionalHex::new(1, 8, -9, 6));
    assert_eq!(a.neg(), FractionalHex::new(-1, -2, 3, 2));
    assert_eq!(a.scale(3, 4), FractionalHex::new(3, 6, -9, 8));
    let h = Hex::new(1, -1, 0);
    assert_eq!(a.add_hex(h), FractionalHex::new(3, 0, -3, 2));
    assert_eq!(a.sub_hex(h), FractionalHex::new(-1, 4, -3, 2));
    assert_eq!(h.to_fractional_hex(), FractionalHex::new(1, -1, 0, 1));
    assert_eq!(h.nudge(), FractionalHex::new(1_000_001, -999_999, -2, 1_000_000));
    assert_eq!(h.nudge().round(), h);
}

#[test]
fn line_to_itself_is_one_point() {
    let o = Hex::new(0, 0, 0);
    assert_eq!(hexlib::shapes::line(&o, &o), vec![o]);
}

#[test]
fn line_along_an_axis() {
    let a = Hex::new(0, 0, 0);
    let b = Hex::new(3, -3, 0);
    let v = hexlib::shapes::line(&a, &b);
    assert_eq!(v.len(), 4);
    assert_eq!(v[0], a);
    assert_eq!(v[3], b);
    for w in v.windows(2) {
        assert_eq!(w[0].distance_to(w[1]), 1);
    }
    assert_eq!(v, vec![a, Hex::new(1, -1, 0), Hex::new(2, -2, 0), b]);
}

#[test]
fn line_through_a_tie_follows_the_nudge() {
    let v = hexlib::shapes::line(&Hex::new(0, 0, 0), &Hex::new(2, -1, -1));
    assert_eq!(v, vec![Hex::new(0, 0, 0), Hex::new(1, 0, -1), Hex::new(2, -1, -1)]);
}
