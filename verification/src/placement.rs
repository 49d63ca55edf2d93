//! The random ship placement strategy: rejection sampling of origin and
//! orientation, funnelled through the board's own validation. The manual
//! strategy differs only in where candidate parameters come from, so it
//! lives with the input collaborator outside the library and calls
//! `Board::place` with what the player enters.
use vstd::prelude::*;

use crate::BOARD_SIZE;
use crate::board::covered;
use crate::board::in_range;
use crate::board::is_ship_cell;
use crate::board::lemma_placement_defers_game_over;
use crate::board::placement_result;
use crate::board::run_col;
use crate::board::run_row;
use crate::board::Board;
use crate::board::CellState;
use crate::rng::random_below;
use crate::rng::random_bool;

verus! {

/// How many random candidates are tried before placement falls back to a
/// deterministic scan. The cap keeps placement terminating; with the
/// standard fleet on the full grid the scan is never reached in
/// practice, since most candidates are accepted.
pub const RANDOM_PLACEMENT_ATTEMPTS: usize = 10000;

/// The total number of cells the standard five-ship fleet occupies.
pub const FLEET_CELLS: usize = 17;

impl Board {
    /// Place one ship of `size` cells at a random position: sample an
    /// origin and an orientation uniformly and retry on rejection. After
    /// the retry cap, scan every origin and orientation in order, so
    /// that the call terminates: it places the ship if and only if some
    /// valid placement exists, and otherwise reports failure with the
    /// board unchanged.
    pub fn place_ship_random(&mut self, size: usize) -> (placed: bool)
        requires
            old(self).wf(),
        ensures
            final(self).wf(),
            placed <==> exists|row: int, col: int, horizontal: bool|
                in_range(row, col) && old(self).placement_ok(row, col, size as int, horizontal),
            placed ==> exists|row: int, col: int, horizontal: bool|
                in_range(row, col) && old(self).placement_ok(row, col, size as int, horizontal)
                    && placement_result(
                    *old(self),
                    *final(self),
                    row,
                    col,
                    size as int,
                    horizontal,
                ),
            !placed ==> final(self).grid_view() == old(self).grid_view()
                && final(self).footprint() == old(self).footprint(),
    {
        let mut attempt: usize = 0;
        while attempt < RANDOM_PLACEMENT_ATTEMPTS
            invariant
                self.wf(),
                self.grid_view() == old(self).grid_view(),
                self.footprint() == old(self).footprint(),
            decreases RANDOM_PLACEMENT_ATTEMPTS - attempt,
        {
            let row = random_below(BOARD_SIZE);
            let col = random_below(BOARD_SIZE);
            let horizontal = random_bool();
            match self.place(row, col, size, horizontal) {
                Ok(()) => {
                    proof {
                        assert(in_range(row as int, col as int) && old(self).placement_ok(
                            row as int,
                            col as int,
                            size as int,
                            horizontal,
                        ) && placement_result(
                            *old(self),
                            *self,
                            row as int,
                            col as int,
                            size as int,
                            horizontal,
                        ));
                    }
                    return true;
                },
                Err(_) => {},
            }
            attempt = attempt + 1;
        }
        let mut row: usize = 0;
        while row < BOARD_SIZE
            invariant
                self.wf(),
                self.grid_view() == old(self).grid_view(),
                self.footprint() == old(self).footprint(),
                row <= BOARD_SIZE,
                forall|r: int, c: int, h: bool|
                    0 <= r < row && 0 <= c < BOARD_SIZE ==> !old(self).placement_ok(
                        r,
                        c,
                        size as int,
                        h,
                    ),
            decreases BOARD_SIZE - row,
        {
            let mut col: usize = 0;
            while col < BOARD_SIZE
                invariant
                    self.wf(),
                    self.grid_view() == old(self).grid_view(),
                    self.footprint() == old(self).footprint(),
                    row < BOARD_SIZE,
                    col <= BOARD_SIZE,
                    forall|r: int, c: int, h: bool|
                        0 <= r < row && 0 <= c < BOARD_SIZE ==> !old(self).placement_ok(
                            r,
                            c,
                            size as int,
                            h,
                        ),
                    forall|c: int, h: bool|
                        0 <= c < col ==> !old(self).placement_ok(row as int, c, size as int, h),
                decreases BOARD_SIZE - col,
            {
                match self.place(row, col, size, true) {
                    Ok(()) => {
                        proof {
                            assert(in_range(row as int, col as int) && old(self).placement_ok(
                                row as int,
                                col as int,
                                size as int,
                                true,
                            ) && placement_result(
                                *old(self),
                                *self,
                                row as int,
                                col as int,
                                size as int,
                                true,
                            ));
                        }
                        return true;
                    },
                    Err(_) => {},
                }
                match self.place(row, col, size, false) {
                    Ok(()) => {
                        proof {
                            assert(in_range(row as int, col as int) && old(self).placement_ok(
                                row as int,
                                col as int,
                                size as int,
                                false,
                            ) && placement_result(
                                *old(self),
                                *self,
                                row as int,
                                col as int,
                                size as int,
                                false,
                            ));
                        }
                        return true;
                    },
                    Err(_) => {},
                }
                col = col + 1;
            }
            row = row + 1;
        }
        false
    }

    /// One sampling pass over the fleet: place the five ships in order,
    /// giving up at the first ship with no valid position left on the
    /// board as it then stands.
    fn try_place_fleet(&mut self) -> (placed: bool)
        requires
            old(self).wf(),
        ensures
            final(self).wf(),
            placed ==> final(self).footprint().len() == old(self).footprint().len() + FLEET_CELLS,
            placed ==> !final(self).game_over(),
            !placed ==> final(self).footprint().len() < old(self).footprint().len() + FLEET_CELLS,
    {
        if !self.place_ship_random(5) {
            return false;
        }
        if !self.place_ship_random(4) {
            return false;
        }
        if !self.place_ship_random(3) {
            return false;
        }
        if !self.place_ship_random(3) {
            return false;
        }
        let ghost before_last = *self;
        if !self.place_ship_random(2) {
            return false;
        }
        proof {
            let (row, col, horizontal) = choose|row: int, col: int, horizontal: bool|
                in_range(row, col) && before_last.placement_ok(row, col, 2, horizontal)
                    && placement_result(before_last, *self, row, col, 2, horizontal);
            lemma_placement_defers_game_over(before_last, *self, row, col, 2, horizontal);
        }
        true
    }

    /// Place the whole fleet at random positions, in the fixed order
    /// Carrier (5), Battleship (4), Cruiser (3), Submarine (3),
    /// Destroyer (2). On success the board's footprint has grown by the
    /// fleet's seventeen cells, none of them hit, so the game is not
    /// over. On an initially empty grid the fleet always lands: should
    /// the sampling pass ever give up there, the board is rebuilt and
    /// the fleet laid out on five fixed disjoint rows, a layout proved
    /// valid. Only on a partially occupied grid can placement fail, and
    /// then the pass stops at the first ship with no valid position
    /// left, keeping the ships already placed.
    pub fn place_fleet_random(&mut self) -> (placed: bool)
        requires
            old(self).wf(),
        ensures
            final(self).wf(),
            placed ==> final(self).footprint().len() == old(self).footprint().len() + FLEET_CELLS,
            placed ==> !final(self).game_over(),
            !placed ==> final(self).footprint().len() < old(self).footprint().len() + FLEET_CELLS,
            (forall|r: int, c: int| in_range(r, c) ==> old(self).cell(r, c) == CellState::Empty)
                ==> placed,
    {
        let empty_start = self.all_cells_empty();
        if self.try_place_fleet() {
            return true;
        }
        if !empty_start {
            return false;
        }
        proof {
            if old(self).footprint().len() > 0 {
                let p = old(self).footprint()[0];
                assert(is_ship_cell(old(self).cell(p.0 as int, p.1 as int)));
                assert(old(self).cell(p.0 as int, p.1 as int) == CellState::Empty);
            }
        }
        *self = Board::new();
        let ghost b0 = *self;
        proof {
            assert forall|i: int|
                0 <= i < 5 implies b0.cell(run_row(0, true, i), run_col(0, true, i))
                == CellState::Empty by {
                assert(in_range(0, i));
                assert(b0.cell(0, i) == CellState::Empty);
            }
            assert(b0.placement_ok(0, 0, 5, true));
        }
        let r1 = self.place(0, 0, 5, true);
        let ghost b1 = *self;
        proof {
            assert(r1 is Ok);
            assert forall|r: int, c: int|
                in_range(r, c) && r >= 2 implies #[trigger] b1.cell(r, c) == CellState::Empty by {
                assert(!covered(0, 0, 5, true, r, c));
                assert(b1.cell(r, c) == b0.cell(r, c));
                assert(b0.cell(r, c) == CellState::Empty);
            }
            assert forall|i: int|
                0 <= i < 4 implies b1.cell(run_row(2, true, i), run_col(0, true, i))
                == CellState::Empty by {
                assert(in_range(2, i));
                assert(b1.cell(2, i) == CellState::Empty);
            }
            assert(b1.placement_ok(2, 0, 4, true));
        }
        let r2 = self.place(2, 0, 4, true);
        let ghost b2 = *self;
        proof {
            assert(r2 is Ok);
            assert forall|r: int, c: int|
                in_range(r, c) && r >= 4 implies #[trigger] b2.cell(r, c) == CellState::Empty by {
                assert(!covered(2, 0, 4, true, r, c));
                assert(b2.cell(r, c) == b1.cell(r, c));
                assert(b1.cell(r, c) == CellState::Empty);
            }
            assert forall|i: int|
                0 <= i < 3 implies b2.cell(run_row(4, true, i), run_col(0, true, i))
                == CellState::Empty by {
                assert(in_range(4, i));
                assert(b2.cell(4, i) == CellState::Empty);
            }
            assert(b2.placement_ok(4, 0, 3, true));
        }
        let r3 = self.place(4, 0, 3, true);
        let ghost b3 = *self;
        proof {
            assert(r3 is Ok);
            assert forall|r: int, c: int|
                in_range(r, c) && r >= 6 implies #[trigger] b3.cell(r, c) == CellState::Empty by {
                assert(!covered(4, 0, 3, true, r, c));
                assert(b3.cell(r, c) == b2.cell(r, c));
                assert(b2.cell(r, c) == CellState::Empty);
            }
            assert forall|i: int|
                0 <= i < 3 implies b3.cell(run_row(6, true, i), run_col(0, true, i))
                == CellState::Empty by {
                assert(in_range(6, i));
                assert(b3.cell(6, i) == CellState::Empty);
            }
            assert(b3.placement_ok(6, 0, 3, true));
        }
        let r4 = self.place(6, 0, 3, true);
        let ghost b4 = *self;
        proof {
            assert(r4 is Ok);
            assert forall|r: int, c: int|
                in_range(r, c) && r >= 8 implies #[trigger] b4.cell(r, c) == CellState::Empty by {
                assert(!covered(6, 0, 3, true, r, c));
                assert(b4.cell(r, c) == b3.cell(r, c));
                assert(b3.cell(r, c) == CellState::Empty);
            }
            assert forall|i: int|
                0 <= i < 2 implies b4.cell(run_row(8, true, i), run_col(0, true, i))
                == CellState::Empty by {
                assert(in_range(8, i));
                assert(b4.cell(8, i) == CellState::Empty);
            }
            assert(b4.placement_ok(8, 0, 2, true));
        }
        let r5 = self.place(8, 0, 2, true);
        proof {
            assert(r5 is Ok);
            lemma_placement_defers_game_over(b4, *self, 8, 0, 2, true);
        }
        true
    }
}

} // verus!
