//! The grid of counters and the canvas on which the token walks.

use vstd::arithmetic::div_mod::{
    lemma_fundamental_div_mod, lemma_mod_multiples_vanish, lemma_mod_pos_bound, lemma_small_mod,
};
use vstd::prelude::*;

use crate::action::{Action, Jump};
use crate::error::WalkError;
use crate::model::{
    clamp_axis, count_down, count_up, lemma_move_axis_still, lemma_run_push, wrap_axis,
    CanvasModel, GridModel,
};
use crate::picture::{alphabet, border, glyph, header, picture, row_line, row_lines};

verus! {

/// A dense grid of saturating signed counters.
///
/// Implementations say through `view` which matrix they hold, and show that
/// it is always well formed.
pub trait Grid: Sized {
    /// The matrix of counters that the grid holds.
    spec fn view(&self) -> GridModel;

    /// The matrix of a grid has rows of equal length.
    proof fn lemma_view_wf(&self)
        ensures
            self@.wf(),
    ;

    /// A grid of `rows` by `cols` counters, all zero. The number of cells
    /// has to fit into one allocation.
    fn new(rows: usize, cols: usize) -> (grid: Self)
        requires
            rows * cols <= isize::MAX,
        ensures
            grid@ == GridModel::blank(rows as nat, cols as nat),
    ;

    /// The number of rows and of columns.
    fn size(&self) -> (s: (usize, usize))
        ensures
            s.0 == self@.rows(),
            s.1 == self@.cols,
    ;

    /// The counter at `(row, col)`, or `None` outside the grid.
    fn get(&self, row: usize, col: usize) -> (v: Option<i8>)
        ensures
            v == self@.get(row as int, col as int),
    ;

    /// Counts the cell at `(row, col)` up by one, saturating. Outside the
    /// grid this does nothing.
    fn increment(&mut self, row: usize, col: usize)
        ensures
            final(self)@ == old(self)@.counted(row as int, col as int, true),
    ;

    /// Counts the cell at `(row, col)` down by one, saturating. Outside the
    /// grid this does nothing.
    fn decrement(&mut self, row: usize, col: usize)
        ensures
            final(self)@ == old(self)@.counted(row as int, col as int, false),
    ;
}

/// The place of cell `(r, c)` in a row-major array stays inside the array.
proof fn lemma_flat_index_in_range(r: int, c: int, rows: int, cols: int)
    requires
        0 <= r < rows,
        0 <= c < cols,
    ensures
        0 <= r * cols + c < rows * cols,
{
    assert(r * cols >= 0) by (nonlinear_arith)
        requires
            r >= 0,
            cols > 0,
    ;
    assert((r + 1) * cols <= rows * cols) by (nonlinear_arith)
        requires
            r + 1 <= rows,
            cols > 0,
    ;
    assert((r + 1) * cols == r * cols + cols) by (nonlinear_arith);
}

/// Two cells with the same place in a row-major array are the same cell.
proof fn lemma_flat_index_injective(r1: int, c1: int, r2: int, c2: int, cols: int)
    requires
        0 <= c1 < cols,
        0 <= c2 < cols,
        r1 * cols + c1 == r2 * cols + c2,
    ensures
        r1 == r2,
        c1 == c2,
{
    if r1 < r2 {
        assert((r1 + 1) * cols <= r2 * cols) by (nonlinear_arith)
            requires
                r1 + 1 <= r2,
                cols > 0,
        ;
        assert((r1 + 1) * cols == r1 * cols + cols) by (nonlinear_arith);
    } else if r2 < r1 {
        assert((r2 + 1) * cols <= r1 * cols) by (nonlinear_arith)
            requires
                r2 + 1 <= r1,
                cols > 0,
        ;
        assert((r2 + 1) * cols == r2 * cols + cols) by (nonlinear_arith);
    }
}

/// A grid kept as one row-major array.
#[derive(Debug)]
pub struct FlatGrid {
    rows: usize,
    cols: usize,
    data: Vec<i8>,
}

impl FlatGrid {
    #[verifier::type_invariant]
    spec fn inv(self) -> bool {
        self.data@.len() == self.rows * self.cols
    }

    /// The matrix that a row-major array of counters stands for.
    spec fn matrix(rows: nat, cols: nat, data: Seq<i8>) -> GridModel {
        GridModel {
            cols,
            cells: Seq::new(rows, |r: int| Seq::new(cols, |c: int| data[r * cols + c])),
        }
    }

    /// Writing one place of the array changes exactly one cell of the matrix.
    proof fn lemma_matrix_update(
        rows: nat,
        cols: nat,
        data: Seq<i8>,
        row: int,
        col: int,
        value: i8,
    )
        requires
            0 <= row < rows,
            0 <= col < cols,
            data.len() == rows * cols,
        ensures
            Self::matrix(rows, cols, data.update(row * cols + col, value)) == (GridModel {
                cols,
                cells: Self::matrix(rows, cols, data).cells.update(
                    row,
                    Self::matrix(rows, cols, data).cells[row].update(col, value),
                ),
            }),
    {
        let before = Self::matrix(rows, cols, data);
        let after = Self::matrix(rows, cols, data.update(row * cols + col, value));
        let expected = before.cells.update(row, before.cells[row].update(col, value));
        lemma_flat_index_in_range(row, col, rows as int, cols as int);
        assert(after.cells.len() == expected.len());
        assert forall|r: int| 0 <= r < rows implies #[trigger] after.cells[r] =~= expected[r] by {
            assert forall|c: int| 0 <= c < cols implies after.cells[r][c] == expected[r][c] by {
                lemma_flat_index_in_range(r, c, rows as int, cols as int);
                if r * cols + c == row * cols + col {
                    lemma_flat_index_injective(r, c, row, col, cols as int);
                }
            }
        }
        assert(after.cells =~= expected);
    }
}

impl Grid for FlatGrid {
    closed spec fn view(&self) -> GridModel {
        Self::matrix(self.rows as nat, self.cols as nat, self.data@)
    }

    proof fn lemma_view_wf(&self) {
    }

    fn new(rows: usize, cols: usize) -> (grid: FlatGrid) {
        let cells: usize = rows * cols;
        let data: Vec<i8> = vec![0i8; cells];
        let grid = FlatGrid { rows, cols, data };
        proof {
            let blank = GridModel::blank(rows as nat, cols as nat);
            assert forall|r: int| 0 <= r < rows implies #[trigger] grid@.cells[r]
                =~= blank.cells[r] by {
                assert forall|c: int| 0 <= c < cols implies grid@.cells[r][c] == 0i8 by {
                    lemma_flat_index_in_range(r, c, rows as int, cols as int);
                }
            }
            assert(grid@.cells =~= blank.cells);
        }
        grid
    }

    fn size(&self) -> (s: (usize, usize)) {
        (self.rows, self.cols)
    }

    fn get(&self, row: usize, col: usize) -> (v: Option<i8>) {
        if row >= self.rows || col >= self.cols {
            None
        } else {
            proof {
                use_type_invariant(self);
                assert(self.data.len() == self.rows * self.cols);
                lemma_flat_index_in_range(
                    row as int,
                    col as int,
                    self.rows as int,
                    self.cols as int,
                );
            }
            Some(self.data[row * self.cols + col])
        }
    }

    fn increment(&mut self, row: usize, col: usize) {
        if row < self.rows && col < self.cols {
            proof {
                use_type_invariant(&*self);
                assert(self.data.len() == self.rows * self.cols);
                lemma_flat_index_in_range(
                    row as int,
                    col as int,
                    self.rows as int,
                    self.cols as int,
                );
            }
            let at: usize = row * self.cols + col;
            let value: i8 = self.data[at];
            let counted: i8 = if value < i8::MAX {
                value + 1
            } else {
                value
            };
            proof {
                Self::lemma_matrix_update(
                    self.rows as nat,
                    self.cols as nat,
                    self.data@,
                    row as int,
                    col as int,
                    counted,
                );
                assert(counted == count_up(value));
            }
            self.data[at] = counted;
        }
    }

    fn decrement(&mut self, row: usize, col: usize) {
        if row < self.rows && col < self.cols {
            proof {
                use_type_invariant(&*self);
                assert(self.data.len() == self.rows * self.cols);
                lemma_flat_index_in_range(
                    row as int,
                    col as int,
                    self.rows as int,
                    self.cols as int,
                );
            }
            let at: usize = row * self.cols + col;
            let value: i8 = self.data[at];
            let counted: i8 = if value > i8::MIN {
                value - 1
            } else {
                value
            };
            proof {
                Self::lemma_matrix_update(
                    self.rows as nat,
                    self.cols as nat,
                    self.data@,
                    row as int,
                    col as int,
                    counted,
                );
                assert(counted == count_down(value));
            }
            self.data[at] = counted;
        }
    }
}

/// The difference `a - b`, or zero where `b` is the larger.
pub fn sub_or_zero(a: usize, b: usize) -> (r: usize)
    ensures
        r == if a - b < 0 {
            0
        } else {
            a - b
        },
{
    if b >= a {
        return 0;
    }
    a - b
}

/// The size of an offset without its sign.
pub fn magnitude(delta: isize) -> (m: usize)
    ensures
        m == if delta < 0 {
            -delta
        } else {
            delta as int
        },
{
    if delta < 0 {
        let below: isize = -(delta + 1);
        below as usize + 1
    } else {
        delta as usize
    }
}

/// Moves a coordinate along an axis that closes on itself. The offset may
/// be any number of turns around the axis.
pub fn wrap_step(pos: usize, delta: isize, n: usize) -> (r: usize)
    requires
        pos < n,
    ensures
        r == wrap_axis(pos as int, delta as int, n as int),
        r < n,
{
    let m: usize = magnitude(delta);
    let k: usize = m % n;
    proof {
        lemma_fundamental_div_mod(m as int, n as int);
        lemma_mod_pos_bound(m as int, n as int);
    }
    if delta < 0 {
        // North or west: step back by `k`, entering from the far edge
        // where the near one is passed.
        let r: usize = if k > pos {
            pos + (n - k)
        } else {
            pos - k
        };
        proof {
            let q = m as int / n as int;
            assert(pos + delta == n * (-q - 1) + (pos + n - k)) by (nonlinear_arith)
                requires
                    m == n * q + k,
                    delta == -m,
            ;
            lemma_mod_multiples_vanish(-q - 1, pos + n - k, n as int);
            if k > pos {
                lemma_small_mod(r as nat, n as nat);
            } else {
                lemma_mod_multiples_vanish(1, pos - k, n as int);
                lemma_small_mod(r as nat, n as nat);
            }
        }
        r
    } else {
        // South or east: step on by `k`, entering from the near edge where
        // the far one is passed.
        let r: usize = if k >= n - pos {
            k - (n - pos)
        } else {
            pos + k
        };
        proof {
            let q = m as int / n as int;
            assert(pos + delta == n * q + (pos + k)) by (nonlinear_arith)
                requires
                    m == n * q + k,
                    delta == m,
            ;
            lemma_mod_multiples_vanish(q, pos + k, n as int);
            if k >= n - pos {
                lemma_mod_multiples_vanish(1, pos + k - n, n as int);
                lemma_small_mod(r as nat, n as nat);
            } else {
                lemma_small_mod(r as nat, n as nat);
            }
        }
        r
    }
}

/// Moves a coordinate along an axis that ends at its edges.
pub fn clamp_step(pos: usize, delta: isize, n: usize) -> (r: usize)
    requires
        pos < n,
    ensures
        r == clamp_axis(pos as int, delta as int, n as int),
        r < n,
{
    let m: usize = magnitude(delta);
    if delta < 0 {
        sub_or_zero(pos, m)
    } else if m >= n - pos {
        n - 1
    } else {
        pos + m
    }
}

/// A grid and the token that walks on it.
#[derive(Debug)]
pub struct Canvas<T: Grid> {
    grid: T,
    position: (usize, usize),
}

impl<T: Grid> Canvas<T> {
    /// The grid and the cell on which the token stands.
    pub closed spec fn view(&self) -> CanvasModel {
        CanvasModel {
            grid: self.grid@,
            row: self.position.0 as int,
            col: self.position.1 as int,
        }
    }

    /// Puts the token on the middle cell of `grid`. A grid without rows or
    /// without columns has no such cell and is refused.
    pub fn new(grid: T) -> (r: Result<Self, WalkError>)
        ensures
            grid@.rows() == 0 || grid@.cols == 0 <==> r is Err,
            r matches Err(e) ==> e == WalkError::DegenerateGrid,
            r matches Ok(canvas) ==> canvas@ == CanvasModel::start(grid@) && canvas@.wf(),
    {
        let (rows, cols) = grid.size();
        if rows == 0 || cols == 0 {
            return Err(WalkError::DegenerateGrid);
        }
        let row_center: usize = rows / 2;
        let col_center: usize = cols / 2;
        proof {
            grid.lemma_view_wf();
        }
        Ok(Canvas { grid, position: (row_center, col_center) })
    }

    /// The cell on which the token stands, as (row, column).
    pub fn position(&self) -> (p: (usize, usize))
        ensures
            p.0 == self@.row,
            p.1 == self@.col,
    {
        self.position
    }

    /// The grid under the token.
    pub fn grid(&self) -> (g: &T)
        ensures
            g@ == self@.grid,
    {
        &self.grid
    }

    /// Moves the token to `cell` and counts that cell up.
    fn increment(&mut self, cell: (usize, usize))
        requires
            old(self)@.grid.contains(cell.0 as int, cell.1 as int),
        ensures
            final(self)@ == (CanvasModel {
                grid: old(self)@.grid.counted(cell.0 as int, cell.1 as int, true),
                row: cell.0 as int,
                col: cell.1 as int,
            }),
    {
        self.grid.increment(cell.0, cell.1);
        self.position = cell;
    }

    /// Moves the token to `cell` and counts that cell down.
    fn decrement(&mut self, cell: (usize, usize))
        requires
            old(self)@.grid.contains(cell.0 as int, cell.1 as int),
        ensures
            final(self)@ == (CanvasModel {
                grid: old(self)@.grid.counted(cell.0 as int, cell.1 as int, false),
                row: cell.0 as int,
                col: cell.1 as int,
            }),
    {
        self.grid.decrement(cell.0, cell.1);
        self.position = cell;
    }

    /// The cell that the offset leads to when a jump over an edge of the
    /// canvas comes back in on the opposite side.
    pub fn reposition(&self, move_row: isize, move_col: isize) -> (cell: (usize, usize))
        requires
            self@.wf(),
        ensures
            (cell.0 as int, cell.1 as int) == self@.target(move_row as int, move_col as int, true),
            self@.grid.contains(cell.0 as int, cell.1 as int),
    {
        let (n_row, n_col) = self.grid.size();
        let (r, c) = self.position;
        (wrap_step(r, move_row, n_row), wrap_step(c, move_col, n_col))
    }

    /// The cell that the offset leads to when no jump passes an edge of the
    /// canvas.
    pub fn bounded_reposition(&self, move_row: isize, move_col: isize) -> (cell: (usize, usize))
        requires
            self@.wf(),
        ensures
            (cell.0 as int, cell.1 as int) == self@.target(
                move_row as int,
                move_col as int,
                false,
            ),
            self@.grid.contains(cell.0 as int, cell.1 as int),
    {
        let (n_row, n_col) = self.grid.size();
        let (r, c) = self.position;
        (clamp_step(r, move_row, n_row), clamp_step(c, move_col, n_col))
    }

    /// Applies one action: the token jumps, over the edges if `is_unbounded`
    /// and up to them if not, and the cell it lands on is counted up or
    /// down. Standing still counts the current cell.
    pub fn simulate(&mut self, a: &Action, is_unbounded: bool)
        requires
            old(self)@.wf(),
        ensures
            final(self)@ == old(self)@.step(*a, is_unbounded),
            final(self)@.wf(),
    {
        let jump: Jump = match a {
            Action::Increment(j) => *j,
            Action::Decrement(j) => *j,
        };
        let cell: (usize, usize) = match jump {
            Jump::Still => {
                proof {
                    lemma_move_axis_still(self@.row, self@.grid.rows() as int, is_unbounded);
                    lemma_move_axis_still(self@.col, self@.grid.cols as int, is_unbounded);
                }
                (self.position.0, self.position.1)
            },
            _ => {
                let (move_row, move_col) = jump.delta();
                if is_unbounded {
                    self.reposition(move_row, move_col)
                } else {
                    self.bounded_reposition(move_row, move_col)
                }
            },
        };
        match a {
            Action::Increment(_) => self.increment(cell),
            Action::Decrement(_) => self.decrement(cell),
        }
        proof {
            self.grid.lemma_view_wf();
        }
    }

    /// Applies the actions one after the other, first to last.
    pub fn walk(&mut self, actions: &[Action], is_unbounded: bool)
        requires
            old(self)@.wf(),
        ensures
            final(self)@ == old(self)@.run(actions@, is_unbounded),
            final(self)@.wf(),
    {
        let ghost start = self@;
        let mut i: usize = 0;
        while i < actions.len()
            invariant
                i <= actions.len(),
                self@.wf(),
                self@ == start.run(actions@.take(i as int), is_unbounded),
            decreases actions.len() - i,
        {
            proof {
                lemma_run_push(start, actions@.take(i as int), actions@[i as int], is_unbounded);
                assert(actions@.take(i as int).push(actions@[i as int]) =~= actions@.take(
                    i + 1,
                ));
            }
            self.simulate(&actions[i], is_unbounded);
            i += 1;
        }
        proof {
            assert(actions@.take(i as int) =~= actions@);
        }
    }

    /// Draws the grid as text: a header line, a border, one framed line of
    /// glyphs for each row, and the border again.
    pub fn render(&self) -> (text: String)
        ensures
            text@ == picture(self@.grid),
    {
        let (rows, cols) = self.grid.size();
        let mut text: String = String::new();
        text.push('G');
        text.push('r');
        text.push('i');
        text.push('d');
        text.push(':');
        text.push('\n');
        proof {
            assert(text@ =~= header());
        }
        push_border(&mut text, cols);
        let ghost cells = self.grid@.cells;
        let mut row: usize = 0;
        while row < rows
            invariant
                row <= rows,
                rows == self.grid@.rows(),
                cols == self.grid@.cols,
                cells == self.grid@.cells,
                text@ == header() + border(cols as nat) + row_lines(cells.take(row as int)),
            decreases rows - row,
        {
            let ghost before = text@;
            proof {
                self.grid.lemma_view_wf();
            }
            text.push('|');
            let mut col: usize = 0;
            while col < cols
                invariant
                    col <= cols,
                    row < rows,
                    rows == self.grid@.rows(),
                    cols == self.grid@.cols,
                    cells == self.grid@.cells,
                    cells[row as int].len() == cols,
                    text@ == before + seq!['|'] + Seq::new(
                        col as nat,
                        |i: int| glyph(cells[row as int][i] as int),
                    ),
                decreases cols - col,
            {
                // The cell lies on the grid, so it always has a counter.
                let c: char = match self.grid.get(row, col) {
                    Some(v) => alphabet(v),
                    None => ' ',
                };
                text.push(c);
                col += 1;
                proof {
                    assert(text@ =~= before + seq!['|'] + Seq::new(
                        col as nat,
                        |i: int| glyph(cells[row as int][i] as int),
                    ));
                }
            }
            text.push('|');
            text.push('\n');
            proof {
                assert(text@ =~= before + row_line(cells[row as int]));
                assert(cells.take(row + 1).drop_last() =~= cells.take(row as int));
                assert(cells.take(row + 1).last() == cells[row as int]);
                assert(text@ =~= header() + border(cols as nat) + row_lines(cells.take(row + 1)));
            }
            row += 1;
        }
        proof {
            assert(cells.take(row as int) =~= cells);
        }
        push_border(&mut text, cols);
        text
    }
}

/// Appends the line that closes a picture at the top and at the bottom.
fn push_border(text: &mut String, cols: usize)
    ensures
        final(text)@ == old(text)@ + border(cols as nat),
{
    let ghost before = text@;
    text.push('+');
    let mut col: usize = 0;
    while col < cols
        invariant
            col <= cols,
            text@ == before + seq!['+'] + Seq::new(col as nat, |i: int| '-'),
        decreases cols - col,
    {
        text.push('-');
        col += 1;
        proof {
            assert(text@ =~= before + seq!['+'] + Seq::new(col as nat, |i: int| '-'));
        }
    }
    text.push('+');
    text.push('\n');
    proof {
        assert(text@ =~= before + border(cols as nat));
    }
}

} // verus!
