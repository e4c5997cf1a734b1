//! Piece spawn rules, the kick-index mapping, and the bag randomizer.

use rustris::piece::{kick_index, Bag, Piece, BOARD_HEIGHT, BOARD_WIDTH, KIND_O, KIND_T, VISIBLE_HEIGHT};

#[test]
fn piece_kick_index_all_transitions() {
    assert_eq!(kick_index(0, 1), 0);
    assert_eq!(kick_index(1, 0), 1);
    assert_eq!(kick_index(1, 2), 2);
    assert_eq!(kick_index(2, 1), 3);
    assert_eq!(kick_index(2, 3), 4);
    assert_eq!(kick_index(3, 2), 5);
    assert_eq!(kick_index(3, 0), 6);
    assert_eq!(kick_index(0, 3), 7);
}

#[test]
fn piece_piece_new_i_spawn() {
    let p = Piece::new(0);
    assert_eq!(p.kind, 0);
    assert_eq!(p.rotation, 0);
    assert_eq!(p.row, (BOARD_HEIGHT - VISIBLE_HEIGHT) as i32);
    assert_eq!(p.col, (BOARD_WIDTH as i32) / 2 - 1);
}

#[test]
fn piece_piece_new_o_spawn() {
    let p = Piece::new(KIND_O);
    assert_eq!(p.row, (BOARD_HEIGHT - VISIBLE_HEIGHT) as i32 - 1);
    assert_eq!(p.col, (BOARD_WIDTH as i32) / 2 - 1);
}

#[test]
fn piece_piece_new_t_spawn() {
    let p = Piece::new(KIND_T);
    assert_eq!(p.row, (BOARD_HEIGHT - VISIBLE_HEIGHT) as i32);
    assert_eq!(p.col, (BOARD_WIDTH as i32) / 2 - 1);
}

#[test]
fn piece_bag_7bag_completeness() {
    let mut bag = Bag::new(true);
    let mut counts = [0u32; 7];
    for _ in 0..7 {
        let kind = bag.next();
        assert!(kind < 7);
        counts[kind] += 1;
    }
    for count in counts {
        assert_eq!(count, 1);
    }
}

#[test]
fn piece_bag_7bag_two_cycles() {
    let mut bag = Bag::new(true);
    let mut counts = [0u32; 7];
    for _ in 0..14 {
        let kind = bag.next();
        counts[kind] += 1;
    }
    for count in counts {
        assert_eq!(count, 2);
    }
}

#[test]
fn piece_bag_random_mode() {
    let mut bag = Bag::new(false);
    for _ in 0..100 {
        let kind = bag.next();
        assert!(kind < 7);
    }
}

#[test]
fn default_kick_row_for_invalid_transitions() {
    assert_eq!(kick_index(0, 2), 0);
    assert_eq!(kick_index(5, 9), 0);
}

#[test]
fn cells_are_offsets_from_position() {
    let p = Piece::new(0);
    let cells = p.cells();
    assert_eq!(cells.len(), 4);
    assert!(cells.contains(&(p.row, p.col - 1)));
    assert!(cells.contains(&(p.row, p.col)));
    assert!(cells.contains(&(p.row, p.col + 1)));
    assert!(cells.contains(&(p.row, p.col + 2)));
}
