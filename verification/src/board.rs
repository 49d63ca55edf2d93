//! The board model: a square grid of cells plus the recorded footprint of
//! every ship cell, with placement validation, shot resolution and win
//! detection.
use vstd::prelude::*;

use crate::BOARD_SIZE;

verus! {

/// The state of one grid cell. Transitions are one-directional:
/// `Empty` becomes `Miss` on a shot, `ShipPresent` becomes `Hit` on a
/// shot; `Hit` and `Miss` are terminal.
#[derive(Clone, Copy, Debug, PartialEq, Eq, Structural)]
pub enum CellState {
    Empty,
    ShipPresent,
    Hit,
    Miss,
}

/// Why a placement request was rejected. Placement failure is
/// recoverable: the board is left unchanged and the caller retries.
#[derive(Clone, Copy, Debug, PartialEq, Eq, Structural)]
pub enum PlacementError {
    /// The run of cells would extend past the edge of the grid.
    OutOfBounds,
    /// The run stays on the grid but crosses a cell that is not `Empty`.
    Overlap,
}

/// True of a cell that a ship occupies, whether or not it has been hit.
pub open spec fn is_ship_cell(s: CellState) -> bool {
    s == CellState::ShipPresent || s == CellState::Hit
}

/// True when `(r, c)` lies on the grid.
pub open spec fn in_range(r: int, c: int) -> bool {
    0 <= r < BOARD_SIZE && 0 <= c < BOARD_SIZE
}

/// The row-major position of `(r, c)` in the flat grid.
pub open spec fn idx_spec(r: int, c: int) -> int {
    r * BOARD_SIZE + c
}

/// What a shot at position `j` of a flat grid returns: `Miss` on an
/// `Empty` cell, `Hit` on a `ShipPresent` cell, and `Miss` with no
/// effect on a cell that is already resolved.
pub open spec fn fire_outcome(g: Seq<CellState>, j: int) -> CellState {
    match g[j] {
        CellState::ShipPresent => CellState::Hit,
        _ => CellState::Miss,
    }
}

/// The flat grid after a shot at position `j`: an `Empty` cell becomes
/// `Miss`, a `ShipPresent` cell becomes `Hit`, a resolved cell stays as
/// it is, and no other cell changes.
pub open spec fn fire_cells(g: Seq<CellState>, j: int) -> Seq<CellState> {
    match g[j] {
        CellState::Empty => g.update(j, CellState::Miss),
        CellState::ShipPresent => g.update(j, CellState::Hit),
        _ => g,
    }
}

/// What a presenter is shown for a cell: in hide mode `ShipPresent`
/// looks like `Empty`; everything else is shown as it is.
pub open spec fn rendered(s: CellState, hide_ships: bool) -> CellState {
    if hide_ships && s == CellState::ShipPresent {
        CellState::Empty
    } else {
        s
    }
}

/// The row of the `i`th cell of a ship run: horizontal runs stay on the
/// origin row, vertical runs walk down from it.
pub open spec fn run_row(row: int, horizontal: bool, i: int) -> int {
    if horizontal {
        row
    } else {
        row + i
    }
}

/// The column of the `i`th cell of a ship run.
pub open spec fn run_col(col: int, horizontal: bool, i: int) -> int {
    if horizontal {
        col + i
    } else {
        col
    }
}

/// True when a run of `size` cells from the origin stays on the grid.
pub open spec fn run_in_bounds(row: int, col: int, size: int, horizontal: bool) -> bool {
    if horizontal {
        col + size <= BOARD_SIZE
    } else {
        row + size <= BOARD_SIZE
    }
}

/// True when `(r, c)` is one of the `size` cells of the run.
pub open spec fn covered(row: int, col: int, size: int, horizontal: bool, r: int, c: int) -> bool {
    if horizontal {
        r == row && col <= c < col + size
    } else {
        c == col && row <= r < row + size
    }
}

/// The coordinates of the run, in the order they are written and
/// recorded: along the row for a horizontal run, down the column for a
/// vertical one.
pub open spec fn run_coords(row: int, col: int, size: int, horizontal: bool) -> Seq<
    (usize, usize),
> {
    Seq::new(
        size as nat,
        |i: int| (run_row(row, horizontal, i) as usize, run_col(col, horizontal, i) as usize),
    )
}

/// How a successful placement changes a board: every cell of the run
/// becomes `ShipPresent`, every other cell keeps its state, and the run
/// coordinates are appended to the footprint record in order.
pub open spec fn placement_result(
    pre: Board,
    post: Board,
    row: int,
    col: int,
    size: int,
    horizontal: bool,
) -> bool {
    &&& post.grid_view().len() == pre.grid_view().len()
    &&& forall|r: int, c: int|
        in_range(r, c) && covered(row, col, size, horizontal, r, c) ==> #[trigger] post.cell(r, c)
            == CellState::ShipPresent
    &&& forall|r: int, c: int|
        in_range(r, c) && !covered(row, col, size, horizontal, r, c) ==> #[trigger] post.cell(r, c)
            == pre.cell(r, c)
    &&& post.footprint() == pre.footprint() + run_coords(row, col, size, horizontal)
}

/// One side's board: the grid of cells and the footprint record, the
/// coordinates of every cell that was ever set to `ShipPresent`.
pub struct Board {
    grid: Vec<CellState>,
    ships: Vec<(usize, usize)>,
}

impl Board {
    /// The grid as a flat row-major sequence of cells.
    pub closed spec fn grid_view(self) -> Seq<CellState> {
        self.grid@
    }

    /// The recorded ship coordinates, in placement order.
    pub closed spec fn footprint(self) -> Seq<(usize, usize)> {
        self.ships@
    }

    /// The state of the cell at `(r, c)`.
    pub open spec fn cell(self, r: int, c: int) -> CellState {
        self.grid_view()[idx_spec(r, c)]
    }

    /// The board invariant: the grid covers the whole square, and the
    /// footprint record holds exactly the coordinates whose cell is
    /// `ShipPresent` or `Hit`, each recorded once.
    pub open spec fn wf(self) -> bool {
        &&& self.grid_view().len() == BOARD_SIZE * BOARD_SIZE
        &&& forall|k: int|
            0 <= k < self.footprint().len() ==> in_range(
                (#[trigger] self.footprint()[k]).0 as int,
                self.footprint()[k].1 as int,
            ) && is_ship_cell(self.cell(self.footprint()[k].0 as int, self.footprint()[k].1 as int))
        &&& forall|r: int, c: int|
            in_range(r, c) && is_ship_cell(#[trigger] self.cell(r, c)) ==> self.footprint().contains(
                (r as usize, c as usize),
            )
        &&& forall|k1: int, k2: int|
            0 <= k1 < k2 < self.footprint().len() ==> #[trigger] self.footprint()[k1]
                != #[trigger] self.footprint()[k2]
    }

    /// True when the whole fleet is destroyed: every recorded footprint
    /// coordinate is currently `Hit`. A board with no ships placed is
    /// trivially over.
    pub open spec fn game_over(self) -> bool {
        forall|k: int|
            0 <= k < self.footprint().len() ==> self.cell(
                (#[trigger] self.footprint()[k]).0 as int,
                self.footprint()[k].1 as int,
            ) == CellState::Hit
    }

    /// A fresh board: every cell `Empty`, no footprint.
    pub fn new() -> (b: Board)
        ensures
            b.wf(),
            b.footprint().len() == 0,
            forall|r: int, c: int| in_range(r, c) ==> b.cell(r, c) == CellState::Empty,
    {
        let mut grid: Vec<CellState> = Vec::new();
        let mut i: usize = 0;
        while i < BOARD_SIZE * BOARD_SIZE
            invariant
                i <= BOARD_SIZE * BOARD_SIZE,
                grid@.len() == i,
                forall|j: int| 0 <= j < i ==> grid@[j] == CellState::Empty,
            decreases BOARD_SIZE * BOARD_SIZE - i,
        {
            grid.push(CellState::Empty);
            i = i + 1;
        }
        Board { grid, ships: Vec::new() }
    }

    /// True when every cell of the run is currently `Empty`.
    pub open spec fn run_clear(self, row: int, col: int, size: int, horizontal: bool) -> bool {
        forall|i: int|
            0 <= i < size ==> self.cell(run_row(row, horizontal, i), run_col(col, horizontal, i))
                == CellState::Empty
    }

    /// True when the run may be placed: it stays on the grid and crosses
    /// only `Empty` cells.
    pub open spec fn placement_ok(self, row: int, col: int, size: int, horizontal: bool) -> bool {
        run_in_bounds(row, col, size, horizontal) && self.run_clear(row, col, size, horizontal)
    }

    /// Check whether a ship of `size` cells may be placed with its head
    /// at `(row, col)` in the given orientation: the whole run must lie
    /// on the grid and cross only `Empty` cells. The bounds check comes
    /// first, so no cell is read for an out-of-bounds run.
    pub fn can_place_ship(&self, row: usize, col: usize, size: usize, horizontal: bool) -> (ok:
        bool)
        requires
            self.wf(),
            row < BOARD_SIZE,
            col < BOARD_SIZE,
        ensures
            ok == self.placement_ok(row as int, col as int, size as int, horizontal),
    {
        if horizontal {
            if size > BOARD_SIZE - col {
                return false;
            }
        } else {
            if size > BOARD_SIZE - row {
                return false;
            }
        }
        let mut i: usize = 0;
        while i < size
            invariant
                self.wf(),
                row < BOARD_SIZE,
                col < BOARD_SIZE,
                i <= size,
                run_in_bounds(row as int, col as int, size as int, horizontal),
                forall|k: int|
                    0 <= k < i ==> self.cell(
                        run_row(row as int, horizontal, k),
                        run_col(col as int, horizontal, k),
                    ) == CellState::Empty,
            decreases size - i,
        {
            let (r, c) = if horizontal {
                (row, col + i)
            } else {
                (row + i, col)
            };
            if !matches!(self.grid[idx(r, c)], CellState::Empty) {
                assert(self.cell(run_row(row as int, horizontal, i as int), run_col(col as int, horizontal, i as int)) != CellState::Empty);
                return false;
            }
            i = i + 1;
        }
        true
    }

    /// Place a ship of `size` cells with its head at `(row, col)`. On a
    /// valid request every cell of the run goes `Empty` to `ShipPresent`
    /// and the run coordinates are appended to the footprint record; an
    /// invalid request leaves the board entirely unchanged. The bounds
    /// check comes first: a run off the grid reports `OutOfBounds` even
    /// if it also crosses an occupied cell.
    pub fn place(&mut self, row: usize, col: usize, size: usize, horizontal: bool) -> (res: Result<
        (),
        PlacementError,
    >)
        requires
            old(self).wf(),
            row < BOARD_SIZE,
            col < BOARD_SIZE,
        ensures
            final(self).wf(),
            res is Ok <==> old(self).placement_ok(row as int, col as int, size as int, horizontal),
            res == Err::<(), PlacementError>(PlacementError::OutOfBounds) <==> !run_in_bounds(
                row as int,
                col as int,
                size as int,
                horizontal,
            ),
            res == Err::<(), PlacementError>(PlacementError::Overlap) <==> (run_in_bounds(
                row as int,
                col as int,
                size as int,
                horizontal,
            ) && !old(self).run_clear(row as int, col as int, size as int, horizontal)),
            res is Err ==> final(self).grid_view() == old(self).grid_view()
                && final(self).footprint() == old(self).footprint(),
            res is Ok ==> placement_result(
                *old(self),
                *final(self),
                row as int,
                col as int,
                size as int,
                horizontal,
            ),
    {
        if horizontal {
            if size > BOARD_SIZE - col {
                return Err(PlacementError::OutOfBounds);
            }
        } else {
            if size > BOARD_SIZE - row {
                return Err(PlacementError::OutOfBounds);
            }
        }
        if !self.can_place_ship(row, col, size, horizontal) {
            return Err(PlacementError::Overlap);
        }
        let ghost pre = *self;
        let mut i: usize = 0;
        while i < size
            invariant
                pre.wf(),
                row < BOARD_SIZE,
                col < BOARD_SIZE,
                i <= size,
                run_in_bounds(row as int, col as int, size as int, horizontal),
                pre.run_clear(row as int, col as int, size as int, horizontal),
                self.grid_view().len() == pre.grid_view().len(),
                self.footprint() == pre.footprint() + run_coords(
                    row as int,
                    col as int,
                    i as int,
                    horizontal,
                ),
                forall|k: int|
                    0 <= k < i ==> self.cell(
                        run_row(row as int, horizontal, k),
                        run_col(col as int, horizontal, k),
                    ) == CellState::ShipPresent,
                forall|r: int, c: int|
                    in_range(r, c) && !covered(row as int, col as int, i as int, horizontal, r, c)
                        ==> #[trigger] self.cell(r, c) == pre.cell(r, c),
            decreases size - i,
        {
            let (r, c) = if horizontal {
                (row, col + i)
            } else {
                (row + i, col)
            };
            let ghost before = *self;
            let j = idx(r, c);
            self.grid[j] = CellState::ShipPresent;
            self.ships.push((r, c));
            proof {
                assert(self.footprint() =~= pre.footprint() + run_coords(
                    row as int,
                    col as int,
                    i as int + 1,
                    horizontal,
                ));
                assert forall|r2: int, c2: int|
                    in_range(r2, c2) && !covered(
                        row as int,
                        col as int,
                        i as int + 1,
                        horizontal,
                        r2,
                        c2,
                    ) implies #[trigger] self.cell(r2, c2) == pre.cell(r2, c2) by {
                    if idx_spec(r2, c2) == idx_spec(r as int, c as int) {
                        lemma_idx_injective(r2, c2, r as int, c as int);
                    } else {
                        assert(!covered(row as int, col as int, i as int, horizontal, r2, c2));
                        assert(before.cell(r2, c2) == pre.cell(r2, c2));
                        assert(self.cell(r2, c2) == before.cell(r2, c2));
                    }
                }
                assert forall|k: int|
                    0 <= k < i as int + 1 implies self.cell(
                        run_row(row as int, horizontal, k),
                        run_col(col as int, horizontal, k),
                    ) == CellState::ShipPresent by {
                    let rk = run_row(row as int, horizontal, k);
                    let ck = run_col(col as int, horizontal, k);
                    if idx_spec(rk, ck) == idx_spec(r as int, c as int) {
                    } else {
                        assert(before.cell(rk, ck) == CellState::ShipPresent);
                    }
                }
            }
            i = i + 1;
        }
        proof {
            assert forall|r: int, c: int|
                in_range(r, c) && covered(
                    row as int,
                    col as int,
                    size as int,
                    horizontal,
                    r,
                    c,
                ) implies #[trigger] self.cell(r, c) == CellState::ShipPresent by {
                let k = if horizontal {
                    c - col
                } else {
                    r - row
                };
                assert(self.cell(run_row(row as int, horizontal, k), run_col(col as int, horizontal, k))
                    == CellState::ShipPresent);
            }
            self.lemma_place_restores_wf(pre, row as int, col as int, size as int, horizontal);
        }
        Ok(())
    }

    /// A completed placement restores the board invariant: the run cells
    /// were `Empty`, so they were not on the footprint record before,
    /// and they are appended to it exactly once each.
    proof fn lemma_place_restores_wf(self, pre: Board, row: int, col: int, size: int, horizontal: bool)
        requires
            pre.wf(),
            in_range(row, col),
            run_in_bounds(row, col, size, horizontal),
            pre.run_clear(row, col, size, horizontal),
            size >= 0,
            placement_result(pre, self, row, col, size, horizontal),
        ensures
            self.wf(),
    {
        let fp = self.footprint();
        let coords = run_coords(row, col, size, horizontal);
        let n = pre.footprint().len() as int;
        assert forall|k: int|
            0 <= k < fp.len() implies in_range((#[trigger] fp[k]).0 as int, fp[k].1 as int)
            && is_ship_cell(self.cell(fp[k].0 as int, fp[k].1 as int)) by {
            if k < n {
                let (r, c) = (fp[k].0 as int, fp[k].1 as int);
                assert(is_ship_cell(pre.cell(r, c)));
                if covered(row, col, size, horizontal, r, c) {
                    lemma_run_clear_cell(pre, row, col, size, horizontal, r, c);
                }
            } else {
                let j = k - n;
                assert(fp[k] == coords[j]);
                let (r, c) = (fp[k].0 as int, fp[k].1 as int);
                assert(r == run_row(row, horizontal, j) && c == run_col(col, horizontal, j));
                assert(in_range(r, c) && covered(row, col, size, horizontal, r, c));
            }
        }
        assert forall|r: int, c: int|
            in_range(r, c) && is_ship_cell(#[trigger] self.cell(r, c)) implies fp.contains(
            (r as usize, c as usize),
        ) by {
            if covered(row, col, size, horizontal, r, c) {
                let j = if horizontal {
                    c - col
                } else {
                    r - row
                };
                assert(fp[n + j] == coords[j]);
                assert(coords[j] == (r as usize, c as usize));
            } else {
                assert(pre.footprint().contains((r as usize, c as usize)));
                let k = choose|k: int|
                    0 <= k < n && pre.footprint()[k] == (r as usize, c as usize);
                assert(fp[k] == (r as usize, c as usize));
            }
        }
        assert forall|k1: int, k2: int| 0 <= k1 < k2 < fp.len() implies #[trigger] fp[k1]
            != #[trigger] fp[k2] by {
            if k1 < n && k2 >= n {
                let (r, c) = (fp[k2].0 as int, fp[k2].1 as int);
                assert(fp[k2] == coords[k2 - n]);
                assert(covered(row, col, size, horizontal, r, c));
                lemma_run_clear_cell(pre, row, col, size, horizontal, r, c);
                assert(is_ship_cell(pre.cell(fp[k1].0 as int, fp[k1].1 as int)));
            } else if k1 >= n {
                assert(fp[k1] == coords[k1 - n]);
                assert(fp[k2] == coords[k2 - n]);
            }
        }
    }

    /// True iff every cell of the grid is `Empty`: the board is in its
    /// setup-ready state, with no ships placed and no shots fired.
    pub fn all_cells_empty(&self) -> (e: bool)
        requires
            self.wf(),
        ensures
            e == (forall|r: int, c: int|
                in_range(r, c) ==> self.cell(r, c) == CellState::Empty),
    {
        let mut j: usize = 0;
        while j < BOARD_SIZE * BOARD_SIZE
            invariant
                self.wf(),
                j <= BOARD_SIZE * BOARD_SIZE,
                forall|k: int| 0 <= k < j ==> self.grid_view()[k] == CellState::Empty,
            decreases BOARD_SIZE * BOARD_SIZE - j,
        {
            if !matches!(self.grid[j], CellState::Empty) {
                proof {
                    let r = j as int / BOARD_SIZE as int;
                    let c = j as int % BOARD_SIZE as int;
                    assert(in_range(r, c) && idx_spec(r, c) == j as int);
                    assert(self.cell(r, c) != CellState::Empty);
                }
                return false;
            }
            j = j + 1;
        }
        true
    }

    /// The state of the cell at `(row, col)`.
    pub fn cell_at(&self, row: usize, col: usize) -> (s: CellState)
        requires
            self.wf(),
            row < BOARD_SIZE,
            col < BOARD_SIZE,
        ensures
            s == self.cell(row as int, col as int),
    {
        self.grid[idx(row, col)]
    }

    /// True iff the whole fleet on this board is destroyed: every
    /// recorded footprint coordinate is currently `Hit`. A board with no
    /// ships placed is trivially over, so callers must finish placement
    /// before relying on the answer.
    pub fn is_game_over(&self) -> (over: bool)
        requires
            self.wf(),
        ensures
            over == self.game_over(),
    {
        let mut k: usize = 0;
        while k < self.ships.len()
            invariant
                self.wf(),
                k <= self.ships.len(),
                forall|m: int|
                    0 <= m < k ==> self.cell(
                        (#[trigger] self.footprint()[m]).0 as int,
                        self.footprint()[m].1 as int,
                    ) == CellState::Hit,
            decreases self.ships.len() - k,
        {
            let (r, c) = self.ships[k];
            if !matches!(self.grid[idx(r, c)], CellState::Hit) {
                return false;
            }
            k = k + 1;
        }
        true
    }

    /// The cell as a presenter may show it: in hide mode a `ShipPresent`
    /// cell is reported as `Empty`, so the fleet owner's opponent cannot
    /// see ship positions, while `Hit` and `Miss` are always visible.
    pub fn rendered_cell(&self, row: usize, col: usize, hide_ships: bool) -> (s: CellState)
        requires
            self.wf(),
            row < BOARD_SIZE,
            col < BOARD_SIZE,
        ensures
            s == rendered(self.cell(row as int, col as int), hide_ships),
    {
        let s = self.grid[idx(row, col)];
        if hide_ships && matches!(s, CellState::ShipPresent) {
            CellState::Empty
        } else {
            s
        }
    }

    /// Resolve a shot at `(row, col)`: an `Empty` cell becomes `Miss`, a
    /// `ShipPresent` cell becomes `Hit`, and a shot at an already
    /// resolved cell changes nothing and reports `Miss`. Returns the
    /// outcome. Coordinates must be validated by the caller.
    pub fn fire(&mut self, row: usize, col: usize) -> (s: CellState)
        requires
            old(self).wf(),
            row < BOARD_SIZE,
            col < BOARD_SIZE,
        ensures
            final(self).wf(),
            s == fire_outcome(old(self).grid_view(), idx_spec(row as int, col as int)),
            final(self).grid_view() == fire_cells(
                old(self).grid_view(),
                idx_spec(row as int, col as int),
            ),
            final(self).footprint() == old(self).footprint(),
    {
        let j = idx(row, col);
        let s = match self.grid[j] {
            CellState::Empty => {
                self.grid[j] = CellState::Miss;
                CellState::Miss
            },
            CellState::ShipPresent => {
                self.grid[j] = CellState::Hit;
                CellState::Hit
            },
            _ => CellState::Miss,
        };
        proof {
            assert(self.grid_view() =~= fire_cells(old(self).grid_view(), idx_spec(row as int, col as int)));
            self.lemma_fire_preserves_wf(*old(self), row as int, col as int);
        }
        s
    }

    /// A shot preserves the board invariant: whether a cell belongs to a
    /// ship never changes, and the footprint record is untouched.
    proof fn lemma_fire_preserves_wf(self, pre: Board, r0: int, c0: int)
        requires
            pre.wf(),
            in_range(r0, c0),
            self.grid_view() == fire_cells(pre.grid_view(), idx_spec(r0, c0)),
            self.footprint() == pre.footprint(),
        ensures
            self.wf(),
    {
        assert forall|r: int, c: int| in_range(r, c) implies is_ship_cell(#[trigger] self.cell(
            r,
            c,
        )) == is_ship_cell(pre.cell(r, c)) by {
            if idx_spec(r, c) == idx_spec(r0, c0) {
                lemma_idx_injective(r, c, r0, c0);
            }
        }
    }
}

/// The row-major position of `(row, col)` in the flat grid.
fn idx(row: usize, col: usize) -> (j: usize)
    requires
        row < BOARD_SIZE,
        col < BOARD_SIZE,
    ensures
        j == idx_spec(row as int, col as int),
        j < BOARD_SIZE * BOARD_SIZE,
{
    row * BOARD_SIZE + col
}

/// On a board whose run is clear, every covered cell is `Empty`.
proof fn lemma_run_clear_cell(
    b: Board,
    row: int,
    col: int,
    size: int,
    horizontal: bool,
    r: int,
    c: int,
)
    requires
        b.run_clear(row, col, size, horizontal),
        covered(row, col, size, horizontal, r, c),
    ensures
        b.cell(r, c) == CellState::Empty,
{
    let i = if horizontal {
        c - col
    } else {
        r - row
    };
    assert(b.cell(run_row(row, horizontal, i), run_col(col, horizontal, i)) == CellState::Empty);
}

/// Law: once a shot has resolved a cell, every further shot at that same
/// cell returns `Miss` and changes nothing — a repeated shot is a silent
/// no-op, a wasted turn rather than an error.
pub proof fn lemma_repeat_fire_no_op(g: Seq<CellState>, j: int)
    requires
        0 <= j < g.len(),
    ensures
        fire_outcome(fire_cells(g, j), j) == CellState::Miss,
        fire_cells(fire_cells(g, j), j) == fire_cells(g, j),
{
    let g1 = fire_cells(g, j);
    assert(g1[j] == CellState::Hit || g1[j] == CellState::Miss);
}

/// Law: a successful placement of a ship with at least one cell leaves
/// the game not over — the freshly placed cells are `ShipPresent`, and
/// the game is over only once every footprint cell is `Hit`.
pub proof fn lemma_placement_defers_game_over(
    pre: Board,
    post: Board,
    row: int,
    col: int,
    size: int,
    horizontal: bool,
)
    requires
        size >= 1,
        in_range(row, col),
        placement_result(pre, post, row, col, size, horizontal),
    ensures
        !post.game_over(),
{
    let n = pre.footprint().len() as int;
    assert(post.footprint()[n] == run_coords(row, col, size, horizontal)[0]);
    assert(covered(row, col, size, horizontal, row, col));
    assert(post.cell(row, col) == CellState::ShipPresent);
    assert(post.cell((post.footprint()[n]).0 as int, (post.footprint()[n]).1 as int)
        != CellState::Hit);
}

/// Two on-grid coordinates with the same flat position are equal.
pub proof fn lemma_idx_injective(r1: int, c1: int, r2: int, c2: int)
    requires
        in_range(r1, c1),
        in_range(r2, c2),
        idx_spec(r1, c1) == idx_spec(r2, c2),
    ensures
        r1 == r2,
        c1 == c2,
{
}

} // verus!
