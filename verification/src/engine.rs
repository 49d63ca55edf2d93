//! The turn engine: alternating fire between the two boards, win
//! detection, and the opponent move generator. The engine owns both
//! boards exclusively; rendering and input collection happen between
//! calls, outside the library.
use vstd::prelude::*;

use crate::BOARD_SIZE;
use crate::board::Board;
use crate::board::CellState;
use crate::board::fire_cells;
use crate::board::fire_outcome;
use crate::board::idx_spec;
use crate::rng::random_below;

verus! {

/// Where the game stands. Play alternates between `PlayerTurn` and
/// `OpponentTurn` until one fleet is destroyed; `PlayerWon` and
/// `OpponentWon` are terminal.
#[derive(Clone, Copy, Debug, PartialEq, Eq, Structural)]
pub enum GamePhase {
    Setup,
    PlayerTurn,
    OpponentTurn,
    PlayerWon,
    OpponentWon,
}

/// One opponent move: a coordinate pair sampled independently and
/// uniformly from the grid, with no memory of previous shots. Repeat
/// shots at already resolved cells are possible by design — the board
/// resolves them as silent misses — and there is no targeting
/// intelligence; this is an intentional simplicity baseline.
pub fn generate_opponent_move() -> (m: (usize, usize))
    ensures
        m.0 < BOARD_SIZE,
        m.1 < BOARD_SIZE,
{
    (random_below(BOARD_SIZE), random_below(BOARD_SIZE))
}

/// A whole game: the two boards and the current phase. The player fires
/// at the opponent board and the opponent at the player board.
pub struct Game {
    phase: GamePhase,
    player_board: Board,
    opponent_board: Board,
}

impl Game {
    /// The current phase.
    pub closed spec fn phase(self) -> GamePhase {
        self.phase
    }

    /// The board holding the player's fleet, the opponent's target.
    pub closed spec fn player(self) -> Board {
        self.player_board
    }

    /// The board holding the opponent's fleet, the player's target.
    pub closed spec fn opponent(self) -> Board {
        self.opponent_board
    }

    /// The engine invariant: both boards are well formed.
    pub open spec fn wf(self) -> bool {
        self.player().wf() && self.opponent().wf()
    }

    /// A game over two fully set up boards, still in the setup phase.
    pub fn new(player_board: Board, opponent_board: Board) -> (g: Game)
        requires
            player_board.wf(),
            opponent_board.wf(),
        ensures
            g.wf(),
            g.phase() == GamePhase::Setup,
            g.player() == player_board,
            g.opponent() == opponent_board,
    {
        Game { phase: GamePhase::Setup, player_board, opponent_board }
    }

    /// Leave setup: once both fleets are placed the game moves
    /// unconditionally to the player's turn.
    pub fn start(&mut self)
        requires
            old(self).wf(),
            old(self).phase() == GamePhase::Setup,
        ensures
            final(self).wf(),
            final(self).phase() == GamePhase::PlayerTurn,
            final(self).player() == old(self).player(),
            final(self).opponent() == old(self).opponent(),
    {
        self.phase = GamePhase::PlayerTurn;
    }

    /// The player's turn: fire at `(row, col)` on the opponent board and
    /// report the outcome. If that shot destroys the opponent fleet the
    /// game ends with `PlayerWon`; otherwise the turn passes to the
    /// opponent.
    pub fn player_fire(&mut self, row: usize, col: usize) -> (s: CellState)
        requires
            old(self).wf(),
            old(self).phase() == GamePhase::PlayerTurn,
            row < BOARD_SIZE,
            col < BOARD_SIZE,
        ensures
            final(self).wf(),
            s == fire_outcome(old(self).opponent().grid_view(), idx_spec(row as int, col as int)),
            final(self).opponent().grid_view() == fire_cells(
                old(self).opponent().grid_view(),
                idx_spec(row as int, col as int),
            ),
            final(self).opponent().footprint() == old(self).opponent().footprint(),
            final(self).player() == old(self).player(),
            final(self).phase() == if final(self).opponent().game_over() {
                GamePhase::PlayerWon
            } else {
                GamePhase::OpponentTurn
            },
    {
        let s = self.opponent_board.fire(row, col);
        if self.opponent_board.is_game_over() {
            self.phase = GamePhase::PlayerWon;
        } else {
            self.phase = GamePhase::OpponentTurn;
        }
        s
    }

    /// The opponent's turn: draw a random coordinate, fire at it on the
    /// player board, and report the move and its outcome. If that shot
    /// destroys the player fleet the game ends with `OpponentWon`;
    /// otherwise the turn passes back to the player.
    pub fn opponent_fire(&mut self) -> (m: ((usize, usize), CellState))
        requires
            old(self).wf(),
            old(self).phase() == GamePhase::OpponentTurn,
        ensures
            final(self).wf(),
            m.0.0 < BOARD_SIZE,
            m.0.1 < BOARD_SIZE,
            m.1 == fire_outcome(
                old(self).player().grid_view(),
                idx_spec(m.0.0 as int, m.0.1 as int),
            ),
            final(self).player().grid_view() == fire_cells(
                old(self).player().grid_view(),
                idx_spec(m.0.0 as int, m.0.1 as int),
            ),
            final(self).player().footprint() == old(self).player().footprint(),
            final(self).opponent() == old(self).opponent(),
            final(self).phase() == if final(self).player().game_over() {
                GamePhase::OpponentWon
            } else {
                GamePhase::PlayerTurn
            },
    {
        let target = generate_opponent_move();
        let s = self.player_board.fire(target.0, target.1);
        if self.player_board.is_game_over() {
            self.phase = GamePhase::OpponentWon;
        } else {
            self.phase = GamePhase::PlayerTurn;
        }
        (target, s)
    }

    /// The current phase, for the caller driving the game loop.
    pub fn current_phase(&self) -> (p: GamePhase)
        ensures
            p == self.phase(),
    {
        self.phase
    }

    /// A view of the player's board, for rendering with ships visible.
    pub fn player_board(&self) -> (b: &Board)
        ensures
            *b == self.player(),
    {
        &self.player_board
    }

    /// A view of the opponent's board, for rendering with ships hidden.
    pub fn opponent_board(&self) -> (b: &Board)
        ensures
            *b == self.opponent(),
    {
        &self.opponent_board
    }
}

} // verus!
