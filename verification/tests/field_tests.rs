use infection::field::{Field, Move, FIELD_HEIGHT, FIELD_SIZE, FIELD_WIDTH};

fn mv(sx: i8, sy: i8, dx: i8, dy: i8) -> Move {
    Move { source: [sx, sy], destination: [dx, dy] }
}

/// A board holding `fill` everywhere, player one to move.
fn full_board(fill: u8) -> Field {
    let mut f = Field::new();
    for y in 0..6i8 {
        for x in 0..6i8 {
            f.set([x, y], fill).unwrap();
        }
    }
    f
}

#[test]
fn board_constants() {
    assert_eq!(FIELD_WIDTH, 6);
    assert_eq!(FIELD_HEIGHT, 6);
    assert_eq!(FIELD_SIZE, 36);
}

#[test]
fn new_board_is_empty() {
    let f = Field::new();
    assert_eq!(f.current_player_id, 1);
    for y in 0..6i8 {
        for x in 0..6i8 {
            assert_eq!(f.get([x, y]), Some(0));
        }
    }
}

#[test]
fn default_board_has_corner_seeds() {
    let f = Field::default();
    assert_eq!(f.current_player_id, 1);
    assert_eq!(f.get([0, 0]), Some(1));
    assert_eq!(f.get([5, 5]), Some(1));
    assert_eq!(f.get([5, 0]), Some(2));
    assert_eq!(f.get([0, 5]), Some(2));
    assert_eq!(f.get([2, 2]), Some(0));
}

#[test]
fn positions_and_cells() {
    assert!(Field::is_valid_position([0, 0]));
    assert!(Field::is_valid_position([5, 5]));
    assert!(!Field::is_valid_position([-1, 0]));
    assert!(!Field::is_valid_position([0, 6]));
    assert!(!Field::is_valid_position([6, 0]));

    let mut f = Field::new();
    assert_eq!(f.get([-1, 0]), None);
    assert_eq!(f.set([6, 0], 1), Err(()));
    assert_eq!(f.set([3, 4], 2), Ok(()));
    assert_eq!(f.get([3, 4]), Some(2));
}

#[test]
fn into_iter_walks_raster_order() {
    let f = Field::new();
    let ps = f.into_iter();
    assert_eq!(ps.len(), 36);
    assert_eq!(ps[0], [0, 0]);
    assert_eq!(ps[1], [1, 0]);
    assert_eq!(ps[6], [0, 1]);
    assert_eq!(ps[35], [5, 5]);
}

#[test]
fn move_classification() {
    assert_eq!(mv(0, 0, 1, 1).distance(), 1);
    assert_eq!(mv(0, 0, 2, 1).distance(), 2);
    assert_eq!(mv(3, 3, 3, 3).distance(), 0);
    assert!(mv(0, 0, 1, 0).is_cloning());
    assert!(!mv(0, 0, 1, 0).is_moving());
    assert!(mv(0, 0, 2, 0).is_moving());
    assert!(mv(0, 0, 1, 0).is_valid());
    assert!(mv(0, 0, 2, 2).is_valid());
    assert!(!mv(0, 0, 0, 0).is_valid());
    assert!(!mv(0, 0, 3, 0).is_valid());
}

#[test]
fn default_start_moves_and_first_clone() {
    // The default layout: player one owns (0,0) and (5,5); each corner has
    // 8 reachable empty cells, so 16 moves in all.
    let f = Field::default();
    let vm = f.valid_moves();
    assert_eq!(vm.len(), 16);
    let a1b1 = Move::from_string("a1 b1").unwrap();
    assert!(vm.contains(&a1b1));
    for m in &vm {
        assert!(f.is_valid_move(*m));
        let d = m.distance();
        assert!(d == 1 || d == 2);
        assert_eq!(f.get(m.source), Some(1));
        assert_eq!(f.get(m.destination), Some(0));
    }

    let mut f2 = f;
    let r = f2.make_move(a1b1);
    assert_eq!(r, Ok(None));
    assert_eq!(f2.get([1, 0]), Some(1));
    assert_eq!(f2.get([0, 0]), Some(1)); // a clone keeps its source
    assert_eq!(f2.current_player_id, 2);
}

#[test]
fn jump_clears_source() {
    let mut f = Field::default();
    let m = mv(0, 0, 2, 0);
    assert!(f.is_valid_move(m));
    f.make_move(m).unwrap();
    assert_eq!(f.get([0, 0]), Some(0));
    assert_eq!(f.get([2, 0]), Some(1));
}

#[test]
fn capture_flips_adjacent_opponents_only() {
    let mut f = Field::new();
    f.set([0, 0], 1).unwrap();
    f.set([1, 1], 2).unwrap();
    f.set([2, 1], 2).unwrap();
    f.set([4, 4], 2).unwrap();
    let m = mv(0, 0, 1, 0);
    f.make_move(m).unwrap();
    // both opponent cells adjacent to the destination flip to the mover
    assert_eq!(f.get([1, 1]), Some(1));
    assert_eq!(f.get([2, 1]), Some(1));
    // a cell outside the one-cell radius keeps its owner
    assert_eq!(f.get([4, 4]), Some(2));
}

#[test]
fn turn_alternates() {
    let mut f = Field::default();
    assert_eq!(f.current_player_id, 1);
    f.make_move(mv(0, 0, 1, 0)).unwrap();
    assert_eq!(f.current_player_id, 2);
    f.make_move(mv(5, 0, 4, 0)).unwrap();
    assert_eq!(f.current_player_id, 1);
}

#[test]
fn invalid_moves_fail_without_effect() {
    let mut f = Field::default();
    // distance 0, occupied destination, unowned source, off-board cells
    assert_eq!(f.make_move(mv(0, 0, 0, 0)), Err(()));
    assert_eq!(f.make_move(mv(0, 0, 3, 0)), Err(()));
    assert_eq!(f.make_move(mv(5, 0, 4, 0)), Err(()));
    assert_eq!(f.make_move(mv(2, 2, 3, 3)), Err(()));
    assert_eq!(f.make_move(mv(-1, 0, 0, 1)), Err(()));
    assert_eq!(f.make_move(mv(5, 5, 6, 5)), Err(()));
    assert_eq!(f.current_player_id, 1);
    assert_eq!(f.get([0, 0]), Some(1));
    assert_eq!(f.get([3, 0]), Some(0));
}

#[test]
fn finishing_move_reports_the_winner() {
    // Everything player two's except (0,0), with (0,1) free: player one's
    // only move fills the last empty cell, player two cannot reply, and
    // player two holds more cells.
    let mut f = full_board(2);
    f.set([0, 0], 1).unwrap();
    f.set([0, 1], 0).unwrap();
    let vm = f.valid_moves();
    assert_eq!(vm.len(), 1);
    assert_eq!(vm[0], mv(0, 0, 0, 1));
    let r = f.make_move(mv(0, 0, 0, 1));
    assert_eq!(r, Ok(Some(2)));
}

#[test]
fn winner_is_draw_on_equal_counts() {
    // A full board split evenly: no side can move, the counts tie.
    let mut f = full_board(1);
    for y in 3..6i8 {
        for x in 0..6i8 {
            f.set([x, y], 2).unwrap();
        }
    }
    assert_eq!(f.get_winner(), Some(0));
}

#[test]
fn winner_is_none_while_moves_remain() {
    assert_eq!(Field::default().get_winner(), None);
}

#[test]
fn winner_goes_to_higher_count() {
    let mut f = full_board(1);
    f.set([0, 0], 2).unwrap();
    assert_eq!(f.get_winner(), Some(1));
    let mut g = full_board(2);
    g.set([0, 0], 1).unwrap();
    g.current_player_id = 2;
    assert_eq!(g.get_winner(), Some(2));
}

#[test]
fn no_moves_for_encircled_player() {
    // Player one's lone stone cannot reach the one empty cell three away.
    let mut f = full_board(2);
    f.set([0, 0], 1).unwrap();
    f.set([5, 5], 0).unwrap();
    let vm = f.valid_moves();
    assert!(vm.is_empty());
}

#[test]
fn enumeration_order_is_raster() {
    let f = Field::default();
    let vm = f.valid_moves();
    // the first enumerated move starts at (0,0); sources never go backwards
    assert_eq!(vm[0].source, [0, 0]);
    let mut last = [0i8, 0i8];
    for m in &vm {
        let before = (last[1] as i32) * 6 + last[0] as i32;
        let now = (m.source[1] as i32) * 6 + m.source[0] as i32;
        assert!(now >= before);
        last = m.source;
    }
}

#[test]
fn equality_and_clone_semantics() {
    let f = Field::default();
    let g = f.clone();
    assert_eq!(f, g);

    // clones are independent copies: moving one leaves the other alone
    let mut h = f;
    h.make_move(mv(0, 0, 1, 0)).unwrap();
    assert_ne!(f, h);
    assert_eq!(f, g);

    // same cells but a different side to move are different states
    let mut k = f;
    k.current_player_id = 2;
    assert_ne!(f, k);

    // a board rebuilt cell by cell equals the seeded layout
    let mut r = Field::new();
    r.set([0, 0], 1).unwrap();
    r.set([5, 0], 2).unwrap();
    r.set([0, 5], 2).unwrap();
    r.set([5, 5], 1).unwrap();
    assert_eq!(r, f);
}
