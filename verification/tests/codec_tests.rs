use infection::field::Move;

fn mv(sx: i8, sy: i8, dx: i8, dy: i8) -> Move {
    Move { source: [sx, sy], destination: [dx, dy] }
}

#[test]
fn renders_cell_references() {
    assert_eq!(mv(0, 0, 1, 1).to_string(), "a1 b2");
    assert_eq!(mv(5, 5, 3, 4).to_string(), "f6 d5");
    assert_eq!(mv(2, 0, 2, 2).to_string(), "c1 c3");
}

#[test]
fn parses_cell_references() {
    assert_eq!(Move::from_string("a1 b2"), Some(mv(0, 0, 1, 1)));
    assert_eq!(Move::from_string("f6 d5"), Some(mv(5, 5, 3, 4)));
    assert_eq!(Move::from_string("c1 c3"), Some(mv(2, 0, 2, 2)));
}

#[test]
fn round_trip_over_all_valid_moves() {
    for sy in 0..6i8 {
        for sx in 0..6i8 {
            for dy in 0..6i8 {
                for dx in 0..6i8 {
                    let m = mv(sx, sy, dx, dy);
                    if m.is_valid() {
                        assert_eq!(Move::from_string(&m.to_string()), Some(m));
                    }
                }
            }
        }
    }
}

#[test]
fn rejects_degenerate_distances() {
    assert_eq!(Move::from_string("a1 a1"), None); // distance 0
    assert_eq!(Move::from_string("a1 d1"), None); // distance 3
    assert_eq!(Move::from_string("a1 f6"), None); // distance 5
}

#[test]
fn rejects_malformed_text() {
    assert_eq!(Move::from_string(""), None);
    assert_eq!(Move::from_string("a1"), None);
    assert_eq!(Move::from_string("a1b2"), None); // wrong length
    assert_eq!(Move::from_string("a1  b2"), None); // two separators
    assert_eq!(Move::from_string("a1-b2"), None); // wrong separator
    assert_eq!(Move::from_string("a1 b2 c3"), None);
    assert_eq!(Move::from_string("1a 2b"), None); // swapped letter and digit
}

#[test]
fn rejects_out_of_range_cells() {
    assert_eq!(Move::from_string("g1 f1"), None); // column past the board
    assert_eq!(Move::from_string("a0 a1"), None); // row digit 0
    assert_eq!(Move::from_string("a7 a6"), None); // row past the board
    assert_eq!(Move::from_string("A1 b2"), None); // upper case
    assert_eq!(Move::from_string("á1 b2"), None); // not a plain letter
}
