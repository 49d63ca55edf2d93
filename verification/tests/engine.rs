use gridbattle::board::{Board, CellState};
use gridbattle::engine::{generate_opponent_move, Game, GamePhase};
use gridbattle::BOARD_SIZE;

/// A freshly constructed game is in setup and start moves it to the
/// player's turn.
#[test]
fn game_starts_with_player_turn() {
    let mut g = Game::new(Board::new(), Board::new());
    assert_eq!(g.current_phase(), GamePhase::Setup);
    g.start();
    assert_eq!(g.current_phase(), GamePhase::PlayerTurn);
}

/// A player shot that does not end the game passes the turn to the
/// opponent, and the opponent's reply passes it back.
#[test]
fn turns_alternate_until_a_fleet_falls() {
    let mut player_board = Board::new();
    let mut opponent_board = Board::new();
    assert!(player_board.place(0, 0, 2, true).is_ok());
    assert!(opponent_board.place(5, 5, 2, false).is_ok());
    let mut g = Game::new(player_board, opponent_board);
    g.start();
    let s = g.player_fire(9, 9);
    assert_eq!(s, CellState::Miss);
    assert_eq!(g.current_phase(), GamePhase::OpponentTurn);
    let ((r, c), outcome) = g.opponent_fire();
    assert!(r < BOARD_SIZE && c < BOARD_SIZE);
    let expected = if (r, c) == (0, 0) || (r, c) == (0, 1) {
        CellState::Hit
    } else {
        CellState::Miss
    };
    assert_eq!(outcome, expected);
    assert_eq!(g.current_phase(), GamePhase::PlayerTurn);
}

/// Destroying the opponent fleet ends the game with PlayerWon, exactly
/// on the shot that hits the last ship cell.
#[test]
fn player_wins_by_sinking_the_opponent_fleet() {
    let mut opponent_board = Board::new();
    assert!(opponent_board.place(0, 0, 2, true).is_ok());
    let mut player_board = Board::new();
    assert!(player_board.place(9, 0, 2, true).is_ok());
    let mut g = Game::new(player_board, opponent_board);
    g.start();
    assert_eq!(g.player_fire(0, 0), CellState::Hit);
    assert_eq!(g.current_phase(), GamePhase::OpponentTurn);
    // One opponent shot cannot sink the 2-cell player fleet.
    g.opponent_fire();
    assert_eq!(g.current_phase(), GamePhase::PlayerTurn);
    assert_eq!(g.player_fire(0, 1), CellState::Hit);
    assert_eq!(g.current_phase(), GamePhase::PlayerWon);
}

/// The opponent wins once every player ship cell is hit. The opponent
/// fires at random, so the game is driven until one side falls; with a
/// single 2-cell player fleet and an unhittable-after-sinking opponent
/// fleet the opponent eventually wins.
#[test]
fn opponent_can_win() {
    let mut player_board = Board::new();
    assert!(player_board.place(4, 4, 2, true).is_ok());
    let mut opponent_board = Board::new();
    assert!(opponent_board.place(0, 0, 5, true).is_ok());
    let mut g = Game::new(player_board, opponent_board);
    g.start();
    loop {
        match g.current_phase() {
            GamePhase::PlayerTurn => {
                // Waste the player's turn on a known miss.
                g.player_fire(9, 9);
            }
            GamePhase::OpponentTurn => {
                g.opponent_fire();
            }
            GamePhase::OpponentWon => {
                let b = g.player_board();
                assert_eq!(b.cell_at(4, 4), CellState::Hit);
                assert_eq!(b.cell_at(4, 5), CellState::Hit);
                return;
            }
            phase => panic!("unexpected phase {:?}", phase),
        }
    }
}

/// The boards exposed for rendering reflect fire results, and hiding
/// applies to the opponent's board view.
#[test]
fn board_views_follow_the_game() {
    let mut opponent_board = Board::new();
    assert!(opponent_board.place(3, 3, 3, true).is_ok());
    let mut g = Game::new(Board::new(), opponent_board);
    g.start();
    assert_eq!(g.opponent_board().rendered_cell(3, 3, true), CellState::Empty);
    assert_eq!(g.player_fire(3, 3), CellState::Hit);
    assert_eq!(g.opponent_board().rendered_cell(3, 3, true), CellState::Hit);
    assert_eq!(g.opponent_board().rendered_cell(3, 4, true), CellState::Empty);
    assert_eq!(g.opponent_board().rendered_cell(3, 4, false), CellState::ShipPresent);
}

/// Ten thousand opponent moves stay on the grid and cover all hundred
/// cells with a roughly uniform spread: no cell is starved or flooded.
#[test]
fn opponent_moves_cover_the_grid_uniformly() {
    let trials = 10_000;
    let mut counts = [[0usize; 10]; 10];
    for _ in 0..trials {
        let (r, c) = generate_opponent_move();
        assert!(r < BOARD_SIZE && c < BOARD_SIZE);
        counts[r][c] += 1;
    }
    // Expected 100 per cell; a binomial(10000, 1/100) stays within
    // [30, 200] except with negligible probability.
    for row in counts.iter() {
        for &n in row.iter() {
            assert!(n >= 30, "cell starved: {}", n);
            assert!(n <= 200, "cell flooded: {}", n);
        }
    }
}
