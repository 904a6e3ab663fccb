use spell_thief::geometry::{is_adjacent, points_in_circle, within_radius, Position};

#[test]
fn disc_of_radius_zero_is_the_center() {
    let c = Position { x: 4, y: 7 };
    assert_eq!(points_in_circle(c, 0), vec![c]);
}

#[test]
fn disc_of_radius_one_is_a_plus() {
    let c = Position { x: 10, y: 10 };
    let got = points_in_circle(c, 1);
    assert_eq!(
        got,
        vec![
            Position { x: 9, y: 10 },
            Position { x: 10, y: 9 },
            Position { x: 10, y: 10 },
            Position { x: 10, y: 11 },
            Position { x: 11, y: 10 },
        ]
    );
}

#[test]
fn disc_of_radius_three_has_twenty_nine_tiles() {
    let c = Position { x: 0, y: 0 };
    let got = points_in_circle(c, 3);
    assert_eq!(got.len(), 29);
    assert!(got.contains(&Position { x: 3, y: 0 }));
    assert!(got.contains(&Position { x: -2, y: 2 }));
    assert!(!got.contains(&Position { x: 3, y: 1 }));
    assert!(!got.contains(&Position { x: 4, y: 0 }));
}

#[test]
fn negative_radius_gives_no_tile() {
    assert!(points_in_circle(Position { x: 1, y: 1 }, -1).is_empty());
    assert!(!within_radius(Position { x: 1, y: 1 }, -1, Position { x: 1, y: 1 }));
}

#[test]
fn disc_at_the_edge_of_the_coordinate_range() {
    let c = Position { x: i32::MAX, y: i32::MIN };
    let got = points_in_circle(c, 1);
    assert_eq!(
        got,
        vec![
            Position { x: i32::MAX - 1, y: i32::MIN },
            Position { x: i32::MAX, y: i32::MIN },
            Position { x: i32::MAX, y: i32::MIN + 1 },
        ]
    );
}

#[test]
fn adjacency_takes_diagonals() {
    let c = Position { x: 5, y: 5 };
    assert!(is_adjacent(c, Position { x: 6, y: 6 }));
    assert!(is_adjacent(c, Position { x: 5, y: 4 }));
    assert!(is_adjacent(c, c));
    assert!(!is_adjacent(c, Position { x: 7, y: 5 }));
    assert!(!is_adjacent(Position { x: i32::MIN, y: 0 }, Position { x: i32::MAX, y: 0 }));
}
