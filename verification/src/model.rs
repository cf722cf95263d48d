//! The mathematical model of the walk: a matrix of counters, a position on
//! it, and the rules by which one action changes both.

use vstd::arithmetic::div_mod::{lemma_mod_bound, lemma_mod_multiples_vanish, lemma_small_mod};
use vstd::prelude::*;

use crate::action::{Action, Jump};

verus! {

/// A counter after being counted up once. It stays at the largest value that
/// it can hold.
pub open spec fn count_up(v: i8) -> i8 {
    if v < i8::MAX {
        (v + 1) as i8
    } else {
        v
    }
}

/// A counter after being counted down once. It stays at the smallest value
/// that it can hold.
pub open spec fn count_down(v: i8) -> i8 {
    if v > i8::MIN {
        (v - 1) as i8
    } else {
        v
    }
}

/// A dense matrix of counters: `cells[r][c]` is the counter in row `r` and
/// column `c`. The number of columns is kept apart so that a matrix without
/// rows still has a width.
pub struct GridModel {
    pub cols: nat,
    pub cells: Seq<Seq<i8>>,
}

impl GridModel {
    /// The number of rows.
    pub open spec fn rows(self) -> nat {
        self.cells.len()
    }

    /// Every row has exactly `cols` counters.
    pub open spec fn wf(self) -> bool {
        forall|r: int| 0 <= r < self.cells.len() ==> (#[trigger] self.cells[r]).len() == self.cols
    }

    /// Whether `(row, col)` names a cell of the matrix.
    pub open spec fn contains(self, row: int, col: int) -> bool {
        0 <= row < self.rows() && 0 <= col < self.cols
    }

    /// The counter at `(row, col)`, or nothing outside the matrix.
    pub open spec fn get(self, row: int, col: int) -> Option<i8> {
        if self.contains(row, col) {
            Some(self.cells[row][col])
        } else {
            None
        }
    }

    /// The matrix of the given size with every counter at zero.
    pub open spec fn blank(rows: nat, cols: nat) -> GridModel {
        GridModel { cols, cells: Seq::new(rows, |r: int| Seq::new(cols, |c: int| 0i8)) }
    }

    /// The matrix after the counter at `(row, col)` was counted once, up or
    /// down. Outside the matrix nothing is counted.
    pub open spec fn counted(self, row: int, col: int, up: bool) -> GridModel {
        if self.contains(row, col) {
            let old_value = self.cells[row][col];
            let new_value = if up {
                count_up(old_value)
            } else {
                count_down(old_value)
            };
            GridModel {
                cols: self.cols,
                cells: self.cells.update(row, self.cells[row].update(col, new_value)),
            }
        } else {
            self
        }
    }
}

/// The coordinate reached on an axis of length `n` from `pos` by `delta`
/// when the axis closes on itself: the true remainder, never negative.
pub open spec fn wrap_axis(pos: int, delta: int, n: int) -> int {
    (pos + delta) % n
}

/// The coordinate reached on an axis of length `n` from `pos` by `delta`
/// when the axis ends at its edges: the move stops at `0` and at `n - 1`.
pub open spec fn clamp_axis(pos: int, delta: int, n: int) -> int {
    if pos + delta < 0 {
        0
    } else if pos + delta > n - 1 {
        n - 1
    } else {
        pos + delta
    }
}

/// The coordinate reached on one axis under the chosen addressing.
pub open spec fn move_axis(pos: int, delta: int, n: int, wrap: bool) -> int {
    if wrap {
        wrap_axis(pos, delta, n)
    } else {
        clamp_axis(pos, delta, n)
    }
}

/// A grid together with the cell on which the token stands.
pub struct CanvasModel {
    pub grid: GridModel,
    pub row: int,
    pub col: int,
}

impl CanvasModel {
    /// The grid is well formed and the token stands on one of its cells.
    pub open spec fn wf(self) -> bool {
        self.grid.wf() && self.grid.contains(self.row, self.col)
    }

    /// The token placed on the middle cell of `grid`, rounding towards the
    /// top left.
    pub open spec fn start(grid: GridModel) -> CanvasModel {
        CanvasModel { grid, row: grid.rows() as int / 2, col: grid.cols as int / 2 }
    }

    /// The cell that an offset leads to from the current one.
    pub open spec fn target(self, move_row: int, move_col: int, wrap: bool) -> (int, int) {
        (
            move_axis(self.row, move_row, self.grid.rows() as int, wrap),
            move_axis(self.col, move_col, self.grid.cols as int, wrap),
        )
    }

    /// The cell that a jump leads to from the current one.
    pub open spec fn landing(self, jump: Jump, wrap: bool) -> (int, int) {
        self.target(jump.offset().0, jump.offset().1, wrap)
    }

    /// The canvas after one action: the token jumps, and the cell it lands
    /// on is counted.
    pub open spec fn step(self, action: Action, wrap: bool) -> CanvasModel {
        let cell = self.landing(action.jump(), wrap);
        CanvasModel {
            grid: self.grid.counted(cell.0, cell.1, action.counts_up()),
            row: cell.0,
            col: cell.1,
        }
    }

    /// The canvas after a sequence of actions, applied first to last.
    pub open spec fn run(self, actions: Seq<Action>, wrap: bool) -> CanvasModel
        decreases actions.len(),
    {
        if actions.len() == 0 {
            self
        } else {
            self.run(actions.drop_last(), wrap).step(actions.last(), wrap)
        }
    }
}

/// Wrapping never leaves the axis, whatever the start and however large the
/// offset.
pub proof fn lemma_wrap_axis_in_range(pos: int, delta: int, n: int)
    requires
        n > 0,
    ensures
        0 <= wrap_axis(pos, delta, n) < n,
{
    lemma_mod_bound(pos + delta, n);
}

/// For an offset of at most one turn, wrapping is one step with at most one
/// passage over an edge: a backward move past the near edge comes in at
/// `pos + n - |delta|`, a forward move past the far edge at
/// `pos + |delta| - n`.
pub proof fn lemma_wrap_axis_cases(pos: int, delta: int, n: int)
    requires
        0 <= pos < n,
        -n <= delta <= n,
    ensures
        delta < 0 && -delta > pos ==> wrap_axis(pos, delta, n) == pos + n - (-delta),
        delta < 0 && -delta <= pos ==> wrap_axis(pos, delta, n) == pos - (-delta),
        delta >= 0 && pos + delta >= n ==> wrap_axis(pos, delta, n) == pos + delta - n,
        delta >= 0 && pos + delta < n ==> wrap_axis(pos, delta, n) == pos + delta,
{
    if delta < 0 && -delta > pos {
        lemma_mod_multiples_vanish(-1, pos + delta + n, n);
        lemma_small_mod((pos + delta + n) as nat, n as nat);
    } else if delta >= 0 && pos + delta >= n {
        lemma_mod_multiples_vanish(1, pos + delta - n, n);
        lemma_small_mod((pos + delta - n) as nat, n as nat);
    } else {
        lemma_small_mod((pos + delta) as nat, n as nat);
    }
}

/// Clamping never leaves the axis and never moves against the offset: a
/// backward move ends between `0` and the start, a forward move between the
/// start and `n - 1`.
pub proof fn lemma_clamp_axis_in_range(pos: int, delta: int, n: int)
    requires
        0 <= pos < n,
    ensures
        0 <= clamp_axis(pos, delta, n) <= n - 1,
        delta <= 0 ==> clamp_axis(pos, delta, n) <= pos,
        delta >= 0 ==> clamp_axis(pos, delta, n) >= pos,
        delta < 0 ==> clamp_axis(pos, delta, n) == if pos + delta > 0 {
            pos + delta
        } else {
            0
        },
        delta >= 0 ==> clamp_axis(pos, delta, n) == if pos + delta < n - 1 {
            pos + delta
        } else {
            n - 1
        },
{
}

/// An offset of zero leaves a coordinate on the axis where it is, under
/// either addressing.
pub proof fn lemma_move_axis_still(pos: int, n: int, wrap: bool)
    requires
        0 <= pos < n,
    ensures
        move_axis(pos, 0, n, wrap) == pos,
{
    lemma_small_mod(pos as nat, n as nat);
}

/// On a grid with at least one row and one column the token starts on the
/// cell `(rows / 2, cols / 2)`, which is a cell of the grid.
pub proof fn lemma_start_wf(grid: GridModel)
    requires
        grid.wf(),
        grid.rows() >= 1,
        grid.cols >= 1,
    ensures
        CanvasModel::start(grid).row == grid.rows() / 2,
        CanvasModel::start(grid).col == grid.cols / 2,
        CanvasModel::start(grid).wf(),
{
}

/// Counting a cell changes neither the size of a grid nor its being well
/// formed.
pub proof fn lemma_counted_wf(grid: GridModel, row: int, col: int, up: bool)
    requires
        grid.wf(),
    ensures
        grid.counted(row, col, up).wf(),
        grid.counted(row, col, up).rows() == grid.rows(),
        grid.counted(row, col, up).cols == grid.cols,
{
}

/// Whatever the action and the addressing, the token stays on the grid and
/// the grid keeps its size.
pub proof fn lemma_step_wf(canvas: CanvasModel, action: Action, wrap: bool)
    requires
        canvas.wf(),
    ensures
        canvas.step(action, wrap).wf(),
        canvas.step(action, wrap).grid.rows() == canvas.grid.rows(),
        canvas.step(action, wrap).grid.cols == canvas.grid.cols,
{
    let offset = action.jump().offset();
    let rows = canvas.grid.rows() as int;
    let cols = canvas.grid.cols as int;
    lemma_wrap_axis_in_range(canvas.row, offset.0, rows);
    lemma_wrap_axis_in_range(canvas.col, offset.1, cols);
    lemma_clamp_axis_in_range(canvas.row, offset.0, rows);
    lemma_clamp_axis_in_range(canvas.col, offset.1, cols);
    let cell = canvas.landing(action.jump(), wrap);
    lemma_counted_wf(canvas.grid, cell.0, cell.1, action.counts_up());
}

/// A whole walk keeps the token on the grid and the grid at its size.
pub proof fn lemma_run_wf(canvas: CanvasModel, actions: Seq<Action>, wrap: bool)
    requires
        canvas.wf(),
    ensures
        canvas.run(actions, wrap).wf(),
        canvas.run(actions, wrap).grid.rows() == canvas.grid.rows(),
        canvas.run(actions, wrap).grid.cols == canvas.grid.cols,
    decreases actions.len(),
{
    if actions.len() > 0 {
        lemma_run_wf(canvas, actions.drop_last(), wrap);
        lemma_step_wf(canvas.run(actions.drop_last(), wrap), actions.last(), wrap);
    }
}

/// A walk is a fold from the left: walking `actions` and then one more
/// action is walking the longer sequence.
pub proof fn lemma_run_push(canvas: CanvasModel, actions: Seq<Action>, next: Action, wrap: bool)
    ensures
        canvas.run(actions.push(next), wrap) == canvas.run(actions, wrap).step(next, wrap),
{
    assert(actions.push(next).drop_last() =~= actions);
}

} // verus!
