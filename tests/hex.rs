use hexlib::{Hex, HexDirection, Offset};

#[test]
fn test() {
    let x = Hex { q: 1, r: 1, s: -2 };
    let y = Hex { q: 2, r: 3, s: -5 };

    let z = x + y;

    assert_eq!(z.q, 3)
}

#[test]
fn it_sets_values_correctly() {
    let x = Hex::new(1, 2, -3);
    assert_eq!(x.q, 1);
}

#[test]
fn it_calculates_length_correctly() {
    let x = Hex::new(1, -1, 0);

    assert_eq!(x.length(), 1);

    let y = Hex::new(1, -2, -1);

    assert_eq!(y.length(), 2);

    let z = Hex::new(0, 3, -3);

    assert_eq!(z.length(), 3);
}

#[test]
fn it_multiplies_correctly() {
    for i in 1..10 {
        let x = Hex::new(1, 2, -3);

        let z = x * i;

        let i = &i;
        assert_eq!(z.q, x.q * i);
        assert_eq!(z.r, x.r * i);
        assert_eq!(z.s, x.s * i);
    }
}

#[test]
fn it_divides_correctly() {
    for i in 1..10 {
        let i_ref = &i;

        let x = Hex::new(120, 240, -360);

        let z = x / i;

        assert_eq!(z.q, x.q / i_ref);
        assert_eq!(z.r, x.r / i_ref);
        assert_eq!(z.s, x.s / i_ref);
    }
}

#[test]
fn division_truncates_toward_zero() {
    let z = Hex::new(-7, 3, 4) / 2;
    assert_eq!(z, Hex::new(-3, 1, 2));
    let w = Hex::new(-7, 3, 4) / -2;
    assert_eq!(w, Hex::new(3, -1, -2));
}

#[test]
fn adding_the_negation_gives_the_origin() {
    let h = Hex::new(4, -9, 5);
    assert_eq!(h + (-h), Hex::new(0, 0, 0));
    let d = h + h;
    assert_eq!(d, Hex::new(8, -18, 10));
    assert_eq!(d.q + d.r + d.s, 0);
    assert_eq!(h - h, Hex::default());
}

#[test]
fn rotations_undo_each_other_and_cycle() {
    let h = Hex::new(2, -5, 3);
    assert_eq!(h.rotate_left(), Hex::new(-3, -2, 5));
    assert_eq!(h.rotate_right(), Hex::new(5, -3, -2));
    assert_eq!(h.rotate_left().rotate_right(), h);
    let mut g = h;
    for _ in 0..6 {
        g = g.rotate_left();
    }
    assert_eq!(g, h);
}

#[test]
fn neighbors_are_at_distance_one() {
    let h = Hex::new(3, -1, -2);
    let ns = h.neighbors();
    assert_eq!(ns.len(), 6);
    for d in 0..6 {
        let n = h.neighbor(HexDirection::new(d));
        assert_eq!(ns[d as usize], n);
        assert_eq!(n.distance_to(h), 1);
    }
    assert_eq!(ns[0], Hex::new(3, -2, -1));
    assert_eq!(ns[5], Hex::new(2, -1, -1));
}

#[test]
fn distance_between_coordinates() {
    assert_eq!(Hex::new(0, 0, 0).distance_to(Hex::new(3, -3, 0)), 3);
    assert_eq!(Hex::new(-2, 5, -3).distance_to(Hex::new(1, 1, -2)), 4);
}

#[test]
fn direction_index_wraps_modulo_six() {
    assert_eq!(HexDirection::new(7).value(), 1);
    assert_eq!(HexDirection::new(-1).value(), 5);
    assert_eq!(HexDirection::new(-12).value(), 0);
    assert_eq!((HexDirection::new(4) + HexDirection::new(5)).value(), 3);
    assert_eq!(HexDirection::new(3).to_hex(), Hex::new(0, 1, -1));
}

#[test]
fn offset_round_trip_is_a_bijection() {
    for q in -50..=50 {
        for r in -50..=50 {
            let h = Hex::new(q, r, -q - r);
            assert_eq!(h.to_offset().to_hex(), h);
        }
    }
}

#[test]
fn offset_conversion_values() {
    let o = Hex::new(3, -1, -2).to_offset();
    assert_eq!(o, Offset { col: 3, row: 1 });
    let p = Hex::new(-3, 2, 1).to_offset();
    assert_eq!(p, Offset { col: -3, row: 0 });
    assert_eq!(Offset { col: 1, row: 1 }.to_hex(), Hex::new(1, 0, -1));
    let sum = Offset { col: 1, row: 2 } + Offset { col: 3, row: -4 };
    assert_eq!(sum, Offset { col: 4, row: -2 });
}

#[test]
fn in_range_covers_the_hexagon() {
    let v = Hex::new(0, 0, 0).in_range(&2);
    assert_eq!(v.len(), 19);
    assert!(v.contains(&Hex::new(2, -2, 0)));
    assert!(v.contains(&Hex::new(-1, 2, -1)));
    assert!(!v.contains(&Hex::new(2, 1, -3)));
}
