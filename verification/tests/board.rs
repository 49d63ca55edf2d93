use gridbattle::board::{Board, CellState, PlacementError};
use gridbattle::BOARD_SIZE;

/// Every cell of a fresh board is Empty and the game is trivially over
/// (no footprint to hit).
#[test]
fn new_board_is_empty() {
    let b = Board::new();
    for r in 0..BOARD_SIZE {
        for c in 0..BOARD_SIZE {
            assert_eq!(b.cell_at(r, c), CellState::Empty);
        }
    }
    assert!(b.is_game_over());
}

/// A board is all-empty exactly until something is placed or a shot
/// lands: a ship cell and a miss cell both end the pristine state.
#[test]
fn all_cells_empty_tracks_the_grid() {
    let mut b = Board::new();
    assert!(b.all_cells_empty());
    assert!(b.place(0, 0, 2, true).is_ok());
    assert!(!b.all_cells_empty());
    let mut shot = Board::new();
    shot.fire(9, 9);
    assert!(!shot.all_cells_empty());
}

/// A valid placement succeeds and turns exactly `size` cells into
/// ShipPresent, all on the requested run.
#[test]
fn valid_placement_writes_exactly_the_run() {
    let mut b = Board::new();
    assert!(b.place(4, 3, 3, true).is_ok());
    let mut ship_cells = 0;
    for r in 0..BOARD_SIZE {
        for c in 0..BOARD_SIZE {
            if b.cell_at(r, c) == CellState::ShipPresent {
                ship_cells += 1;
                assert_eq!(r, 4);
                assert!((3..6).contains(&c));
            } else {
                assert_eq!(b.cell_at(r, c), CellState::Empty);
            }
        }
    }
    assert_eq!(ship_cells, 3);
}

/// A vertical placement walks down the column.
#[test]
fn vertical_placement_walks_down() {
    let mut b = Board::new();
    assert!(b.place(6, 2, 4, false).is_ok());
    for i in 0..4 {
        assert_eq!(b.cell_at(6 + i, 2), CellState::ShipPresent);
    }
    assert_eq!(b.cell_at(5, 2), CellState::Empty);
}

/// A size-5 horizontal ship at origin (0,6) runs off a 10-wide board and
/// is rejected; the board stays fully Empty.
#[test]
fn out_of_bounds_placement_rejected() {
    let mut b = Board::new();
    assert_eq!(b.place(0, 6, 5, true), Err(PlacementError::OutOfBounds));
    assert!(!b.can_place_ship(0, 6, 5, true));
    for r in 0..BOARD_SIZE {
        for c in 0..BOARD_SIZE {
            assert_eq!(b.cell_at(r, c), CellState::Empty);
        }
    }
}

/// A size-2 vertical ship at (1,3) crosses (2,3) of an existing size-3
/// horizontal ship at (2,2) and is rejected; the first ship's cells stay
/// ShipPresent and nothing from the second attempt is written.
#[test]
fn overlapping_placement_rejected() {
    let mut b = Board::new();
    assert!(b.place(2, 2, 3, true).is_ok());
    assert_eq!(b.place(1, 3, 2, false), Err(PlacementError::Overlap));
    assert!(!b.can_place_ship(1, 3, 2, false));
    for c in 2..5 {
        assert_eq!(b.cell_at(2, c), CellState::ShipPresent);
    }
    assert_eq!(b.cell_at(1, 3), CellState::Empty);
}

/// The bounds check comes first: a run that both leaves the grid and
/// would overlap reports OutOfBounds.
#[test]
fn bounds_checked_before_overlap() {
    let mut b = Board::new();
    assert!(b.place(9, 0, 10, true).is_ok());
    assert_eq!(b.place(9, 5, 6, true), Err(PlacementError::OutOfBounds));
}

/// Firing resolves Empty to Miss and ShipPresent to Hit.
#[test]
fn fire_resolves_cells() {
    let mut b = Board::new();
    assert!(b.place(0, 0, 2, true).is_ok());
    assert_eq!(b.fire(0, 0), CellState::Hit);
    assert_eq!(b.cell_at(0, 0), CellState::Hit);
    assert_eq!(b.fire(5, 5), CellState::Miss);
    assert_eq!(b.cell_at(5, 5), CellState::Miss);
}

/// Firing at the same cell twice: the first call resolves the cell, and
/// every further call returns Miss and changes nothing.
#[test]
fn repeat_fire_is_silent_miss() {
    let mut b = Board::new();
    assert!(b.place(0, 0, 2, true).is_ok());
    assert_eq!(b.fire(0, 0), CellState::Hit);
    assert_eq!(b.fire(0, 0), CellState::Miss);
    assert_eq!(b.cell_at(0, 0), CellState::Hit);
    assert_eq!(b.fire(7, 7), CellState::Miss);
    assert_eq!(b.fire(7, 7), CellState::Miss);
    assert_eq!(b.cell_at(7, 7), CellState::Miss);
}

/// Fleet-sinking scenario: one 2-length horizontal ship at (0,0)-(0,1);
/// Hit, Hit, and the game is over only after the second shot.
#[test]
fn sinking_the_fleet_ends_the_game() {
    let mut b = Board::new();
    assert!(b.place(0, 0, 2, true).is_ok());
    assert!(!b.is_game_over());
    assert_eq!(b.fire(0, 0), CellState::Hit);
    assert!(!b.is_game_over());
    assert_eq!(b.fire(0, 1), CellState::Hit);
    assert!(b.is_game_over());
}

/// Misses never bring the game closer to over: only hits on footprint
/// cells count.
#[test]
fn misses_do_not_end_the_game() {
    let mut b = Board::new();
    assert!(b.place(3, 3, 2, false).is_ok());
    for c in 0..BOARD_SIZE {
        b.fire(0, c);
    }
    assert!(!b.is_game_over());
    assert_eq!(b.fire(3, 3), CellState::Hit);
    assert_eq!(b.fire(4, 3), CellState::Hit);
    assert!(b.is_game_over());
}

/// In hide mode ShipPresent renders as Empty, while Hit and Miss stay
/// visible; with ships shown everything renders as it is.
#[test]
fn hidden_rendering_masks_only_ships() {
    let mut b = Board::new();
    assert!(b.place(0, 0, 3, true).is_ok());
    assert_eq!(b.fire(0, 0), CellState::Hit);
    assert_eq!(b.fire(9, 9), CellState::Miss);
    assert_eq!(b.rendered_cell(0, 1, true), CellState::Empty);
    assert_eq!(b.rendered_cell(0, 1, false), CellState::ShipPresent);
    assert_eq!(b.rendered_cell(0, 0, true), CellState::Hit);
    assert_eq!(b.rendered_cell(9, 9, true), CellState::Miss);
    assert_eq!(b.rendered_cell(5, 5, true), CellState::Empty);
}
