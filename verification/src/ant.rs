//! The simulation.
//!
//! Grid: `rows` × `cols` cells, 0 = white, 1 = black, 2 = gray.
//! Ant: `(row, col, dir)` with dir 0 = North, 1 = East, 2 = South, 3 = West.
//!
//! Rule:
//!   white cell → turn right (+1 mod 4), flip to black, move forward
//!   black cell → turn left (+3 mod 4), flip to white, move forward
use vstd::prelude::*;

use crate::config::{Solution, cell_code, decode_row, decode_rows};

verus! {

/// The mathematical state of a simulation.
pub struct AntModel {
    pub rows: nat,
    pub cols: nat,
    /// Row-major cells.
    pub grid: Seq<u8>,
    pub row: int,
    pub col: int,
    pub dir: int,
    pub stopped: bool,
    pub steps: nat,
}

/// Row offset of a move in direction `dir`.
pub open spec fn delta_row(dir: int) -> int {
    if dir == 0 { -1 } else if dir == 2 { 1 } else { 0 }
}

/// Column offset of a move in direction `dir`.
pub open spec fn delta_col(dir: int) -> int {
    if dir == 1 { 1 } else if dir == 3 { -1 } else { 0 }
}

/// The direction after leaving a cell of colour `color`: right on white, left otherwise.
pub open spec fn turn(dir: int, color: u8) -> int {
    if color == 0 { (dir + 1) % 4 } else { (dir + 3) % 4 }
}

impl AntModel {
    pub open spec fn in_bounds(self, r: int, c: int) -> bool {
        0 <= r < self.rows && 0 <= c < self.cols
    }

    /// Position of cell `(r, c)` in the row-major buffer.
    pub open spec fn index(self, r: int, c: int) -> int {
        r * self.cols + c
    }

    pub open spec fn index_ok(self, r: int, c: int) -> bool {
        0 <= r && 0 <= c && 0 <= self.index(r, c) < self.grid.len()
    }

    pub open spec fn cell(self, r: int, c: int) -> u8 {
        self.grid[self.index(r, c)]
    }

    /// The state with cell `(r, c)` set to `v`.
    pub open spec fn with_cell(self, r: int, c: int, v: u8) -> AntModel {
        AntModel { grid: self.grid.update(self.index(r, c), v), ..self }
    }

    /// Well-formed: the dimensions fit `isize`, every in-bounds cell is in the
    /// buffer, and the direction is one of the four.
    pub open spec fn wf(self) -> bool {
        &&& self.rows <= isize::MAX
        &&& self.cols <= isize::MAX
        &&& self.rows * self.cols <= self.grid.len()
        &&& 0 <= self.dir < 4
    }

    /// The ant is running and stands on the grid: the next step moves it.
    pub open spec fn active(self) -> bool {
        !self.stopped && self.in_bounds(self.row, self.col)
    }

    /// The state after one step.
    pub open spec fn next(self) -> AntModel {
        if self.stopped {
            self
        } else if !self.in_bounds(self.row, self.col) {
            AntModel { stopped: true, ..self }
        } else {
            let color = self.cell(self.row, self.col);
            let d = turn(self.dir, color);
            let nr = self.row + delta_row(d);
            let nc = self.col + delta_col(d);
            AntModel {
                grid: self.grid.update(self.index(self.row, self.col), (1 - color) as u8),
                row: nr,
                col: nc,
                dir: d,
                stopped: !self.in_bounds(nr, nc),
                steps: self.steps + 1,
                ..self
            }
        }
    }

    /// The next step stays within what the arithmetic of a step allows:
    /// the ant leaves a white or black cell, and the step counter can grow.
    pub open spec fn can_step(self) -> bool {
        self.active() ==> self.cell(self.row, self.col) <= 1 && self.steps < u64::MAX
    }

    /// The state after `n` steps.
    pub open spec fn run(self, n: nat) -> AntModel
        decreases n,
    {
        if n == 0 { self } else { self.run((n - 1) as nat).next() }
    }

    /// Each of the first `n` steps can be taken.
    pub open spec fn safe_for(self, n: nat) -> bool {
        forall|k: nat| k < n ==> #[trigger] self.run(k).can_step()
    }
}

/// The state that `LangtonsAnt::new(rows, cols)` builds: each dimension at
/// least 2, every cell white, the ant in the middle facing North.
pub open spec fn fresh(rows: nat, cols: nat) -> AntModel {
    let r = if rows < 2 { 2 } else { rows };
    let c = if cols < 2 { 2 } else { cols };
    AntModel {
        rows: r,
        cols: c,
        grid: Seq::new(r * c, |i: int| 0u8),
        row: (r / 2) as int,
        col: (c / 2) as int,
        dir: 0,
        stopped: false,
        steps: 0,
    }
}

/// The state that `LangtonsAnt::from_solution(rows, cols, sol)` builds: the
/// solution's rows decoded one after the other, its ant with the direction
/// taken as a byte, the step counter at zero.
pub open spec fn loaded(rows: nat, cols: nat, sol: Solution) -> AntModel {
    AntModel {
        rows,
        cols,
        grid: decode_rows(sol.grid_text()),
        row: sol.ant@[0] as int,
        col: sol.ant@[1] as int,
        dir: (sol.ant@[2] as u8) as int,
        stopped: false,
        steps: 0,
    }
}

/// Every in-bounds cell lies inside a buffer of `rows * cols` cells.
pub proof fn lemma_index_in_range(rows: int, cols: int, r: int, c: int)
    requires
        0 <= r < rows,
        0 <= c < cols,
    ensures
        0 <= r * cols + c < rows * cols,
{
    assert(0 <= r * cols) by (nonlinear_arith)
        requires 0 <= r, 0 <= cols;
    assert(r * cols + cols <= rows * cols) by (nonlinear_arith)
        requires r + 1 <= rows, 0 <= cols;
}

/// A step keeps the state well-formed.
pub proof fn lemma_next_wf(m: AntModel)
    requires
        m.wf(),
    ensures
        m.next().wf(),
        m.next().rows == m.rows,
        m.next().cols == m.cols,
        m.next().grid.len() == m.grid.len(),
{
    if m.active() {
        lemma_index_in_range(m.rows as int, m.cols as int, m.row, m.col);
    }
}

/// A run keeps the state well-formed.
pub proof fn lemma_run_wf(m: AntModel, n: nat)
    requires
        m.wf(),
    ensures
        m.run(n).wf(),
        m.run(n).rows == m.rows,
        m.run(n).cols == m.cols,
        m.run(n).grid.len() == m.grid.len(),
    decreases n,
{
    if n > 0 {
        lemma_run_wf(m, (n - 1) as nat);
        lemma_next_wf(m.run((n - 1) as nat));
    }
}

/// Every cell of the grid is white or black.
pub open spec fn cells_binary(grid: Seq<u8>) -> bool {
    forall|i: int| 0 <= i < grid.len() ==> #[trigger] grid[i] <= 1
}

/// A stopped ant does not move: a step leaves the state as it is.
pub proof fn law_stopped_step_is_noop(m: AntModel)
    requires
        m.stopped,
    ensures
        m.next() == m,
{
}

/// A step changes the grid in exactly one place: the cell the ant leaves is
/// flipped between white and black, every other cell keeps its colour. A step
/// that does not move the ant changes no cell.
pub proof fn law_step_flips_left_cell(m: AntModel, i: int)
    requires
        m.wf(),
        m.can_step(),
        0 <= i < m.grid.len(),
    ensures
        m.next().grid.len() == m.grid.len(),
        m.active() && i == m.index(m.row, m.col) ==> m.next().grid[i] == 1 - m.grid[i],
        !(m.active() && i == m.index(m.row, m.col)) ==> m.next().grid[i] == m.grid[i],
{
    if m.active() {
        lemma_index_in_range(m.rows as int, m.cols as int, m.row, m.col);
    }
}

/// The ant turns right on white and left on black, then moves one cell
/// forward in its new direction; the step counter counts the moves.
pub proof fn law_step_moves_to_neighbour(m: AntModel)
    requires
        m.wf(),
        m.active(),
    ensures
        m.next().dir == (if m.cell(m.row, m.col) == 0 { (m.dir + 1) % 4 } else { (m.dir + 3) % 4 }),
        m.next().row == m.row + delta_row(m.next().dir),
        m.next().col == m.col + delta_col(m.next().dir),
        (m.next().row == m.row && (m.next().col == m.col + 1 || m.next().col == m.col - 1)) || (
        m.next().col == m.col && (m.next().row == m.row + 1 || m.next().row == m.row - 1)),
        m.next().steps == m.steps + 1,
{
}

/// A state whose ant does not stand on the grid is stopped by the next step
/// and keeps its grid, position and counter.
pub proof fn law_outside_ant_stops(m: AntModel)
    requires
        !m.in_bounds(m.row, m.col),
    ensures
        m.next().stopped,
        m.next().grid == m.grid,
        m.next().row == m.row && m.next().col == m.col,
        m.next().steps == m.steps,
{
}

/// After a step the ant is still running exactly when it stands on the grid.
pub proof fn law_running_iff_inside(m: AntModel)
    ensures
        !m.next().stopped ==> m.next().in_bounds(m.next().row, m.next().col),
        m.active() ==> (m.next().stopped == !m.next().in_bounds(m.next().row, m.next().col)),
{
}

/// Once stopped, the ant stays stopped: every later run leaves the state as it is.
pub proof fn law_stopped_is_final(m: AntModel, n: nat)
    requires
        m.stopped,
    ensures
        m.run(n) == m,
    decreases n,
{
    if n > 0 {
        law_stopped_is_final(m, (n - 1) as nat);
    }
}

/// A run of no step leaves the state as it is; a run of one step is one
/// step; a run of `n + 1` steps is one more step after `n`.
pub proof fn law_run_is_repeated_step(m: AntModel, n: nat)
    ensures
        m.run(0) == m,
        m.run(1) == m.next(),
        m.run(n + 1) == m.run(n).next(),
        m.run(n + 1) == m.next().run(n),
{
    assert(m.run(0) == m);
    law_run_add(m, 1, n);
    assert(1 + n == n + 1);
}

/// Running `a` steps and then `b` steps is running `a + b` steps.
pub proof fn law_run_add(m: AntModel, a: nat, b: nat)
    ensures
        m.run(a).run(b) == m.run(a + b),
    decreases b,
{
    if b > 0 {
        law_run_add(m, a, (b - 1) as nat);
        assert((a + b - 1) as nat == a + (b - 1) as nat);
    }
}

/// A run of `n` steps moves the ant at most `n` times: the counter grows by
/// at most `n`.
pub proof fn law_run_counts_moves(m: AntModel, n: nat)
    ensures
        m.steps <= m.run(n).steps <= m.steps + n,
    decreases n,
{
    if n > 0 {
        law_run_counts_moves(m, (n - 1) as nat);
    }
}

/// A step keeps a grid of white and black cells white and black.
pub proof fn law_step_keeps_cells_binary(m: AntModel)
    requires
        m.wf(),
        cells_binary(m.grid),
    ensures
        cells_binary(m.next().grid),
{
    if m.active() {
        lemma_index_in_range(m.rows as int, m.cols as int, m.row, m.col);
        assert forall|i: int| 0 <= i < m.next().grid.len() implies #[trigger] m.next().grid[i]
            <= 1 by {
            if i == m.index(m.row, m.col) {
                assert(m.grid[i] <= 1);
            }
        }
    }
}

/// On a grid of white and black cells the ant can take any number of steps
/// that its counter can still count.
pub proof fn law_binary_grid_is_safe(m: AntModel, n: nat)
    requires
        m.wf(),
        cells_binary(m.grid),
        m.steps + n <= u64::MAX,
    ensures
        m.safe_for(n),
{
    assert forall|k: nat| k < n implies #[trigger] m.run(k).can_step() by {
        lemma_run_binary(m, k);
        law_run_counts_moves(m, k);
        let s = m.run(k);
        if s.active() {
            lemma_index_in_range(s.rows as int, s.cols as int, s.row, s.col);
        }
    }
}

/// A fresh simulation can be run for any number of steps its counter can count.
pub proof fn law_fresh_is_safe(rows: nat, cols: nat, n: nat)
    requires
        (if rows < 2 { 2 } else { rows }) * (if cols < 2 { 2 } else { cols }) <= isize::MAX,
        n <= u64::MAX,
    ensures
        fresh(rows, cols).wf(),
        fresh(rows, cols).safe_for(n),
{
    let r: nat = if rows < 2 { 2 } else { rows };
    let c: nat = if cols < 2 { 2 } else { cols };
    assert(r <= r * c && c <= r * c) by (nonlinear_arith)
        requires r >= 2, c >= 2;
    law_binary_grid_is_safe(fresh(rows, cols), n);
}

proof fn lemma_run_binary(m: AntModel, k: nat)
    requires
        m.wf(),
        cells_binary(m.grid),
    ensures
        m.run(k).wf(),
        cells_binary(m.run(k).grid),
    decreases k,
{
    if k > 0 {
        lemma_run_binary(m, (k - 1) as nat);
        lemma_next_wf(m.run((k - 1) as nat));
        law_step_keeps_cells_binary(m.run((k - 1) as nat));
    }
}

/// Every cell of the grid is white, black or gray.
pub open spec fn cells_in_palette(grid: Seq<u8>) -> bool {
    forall|i: int| 0 <= i < grid.len() ==> #[trigger] grid[i] <= 2
}

/// A step that can be taken keeps every cell white, black or gray.
pub proof fn law_step_keeps_palette(m: AntModel)
    requires
        m.wf(),
        m.can_step(),
        cells_in_palette(m.grid),
    ensures
        cells_in_palette(m.next().grid),
{
    if m.active() {
        lemma_index_in_range(m.rows as int, m.cols as int, m.row, m.col);
        assert forall|i: int| 0 <= i < m.next().grid.len() implies #[trigger] m.next().grid[i]
            <= 2 by {
            if i == m.index(m.row, m.col) {
                assert(m.grid[i] <= 1);
            }
        }
    }
}

/// A run whose steps can all be taken keeps every cell white, black or gray.
pub proof fn law_run_keeps_palette(m: AntModel, n: nat)
    requires
        m.wf(),
        m.safe_for(n),
        cells_in_palette(m.grid),
    ensures
        cells_in_palette(m.run(n).grid),
    decreases n,
{
    if n > 0 {
        let k = (n - 1) as nat;
        assert(m.safe_for(k));
        law_run_keeps_palette(m, k);
        lemma_run_wf(m, k);
        assert(m.run(k).can_step());
        law_step_keeps_palette(m.run(k));
    }
}

/// Distinct cells of the grid have distinct positions in the row-major
/// buffer, all below `rows * cols`.
pub proof fn law_index_row_major(m: AntModel, r1: int, c1: int, r2: int, c2: int)
    requires
        m.in_bounds(r1, c1),
        m.in_bounds(r2, c2),
    ensures
        0 <= m.index(r1, c1) < m.rows * m.cols,
        (r1 != r2 || c1 != c2) ==> m.index(r1, c1) != m.index(r2, c2),
{
    lemma_index_in_range(m.rows as int, m.cols as int, r1, c1);
    let cols = m.cols as int;
    if r1 < r2 {
        assert(r1 * cols + cols <= r2 * cols) by (nonlinear_arith)
            requires r1 + 1 <= r2, 0 <= cols;
    } else if r2 < r1 {
        assert(r2 * cols + cols <= r1 * cols) by (nonlinear_arith)
            requires r2 + 1 <= r1, 0 <= cols;
    }
}

/// The state invariant of a running simulation: a buffer of exactly
/// `rows * cols` white, black or gray cells, one of the four directions, and a
/// stopped ant only off the grid.
pub open spec fn exact_state(m: AntModel) -> bool {
    &&& m.wf()
    &&& m.grid.len() == m.rows * m.cols
    &&& cells_in_palette(m.grid)
    &&& (m.stopped ==> !m.in_bounds(m.row, m.col))
}

/// A step that can be taken keeps the state invariant, keeps the dimensions
/// and the buffer length, and never restarts a stopped ant.
pub proof fn law_step_keeps_invariant(m: AntModel)
    requires
        exact_state(m),
        m.can_step(),
    ensures
        exact_state(m.next()),
        m.next().rows == m.rows,
        m.next().cols == m.cols,
        m.next().grid.len() == m.grid.len(),
        m.stopped ==> m.next().stopped,
{
    lemma_next_wf(m);
    law_step_keeps_palette(m);
}

/// A run whose steps can all be taken keeps the counter within `u64`.
pub proof fn law_safe_run_counter_fits(m: AntModel, n: nat)
    requires
        m.steps <= u64::MAX,
        m.safe_for(n),
    ensures
        m.steps <= m.run(n).steps <= u64::MAX,
    decreases n,
{
    if n > 0 {
        let k = (n - 1) as nat;
        assert(m.safe_for(k));
        law_safe_run_counter_fits(m, k);
        assert(m.run(k).can_step());
    }
}

/// The four directions: 0 moves one row up (North), 1 one column right
/// (East), 2 one row down (South), 3 one column left (West).
pub proof fn law_step_direction_meaning(m: AntModel)
    requires
        m.wf(),
        m.active(),
    ensures
        m.next().dir == 0 ==> m.next().row == m.row - 1 && m.next().col == m.col,
        m.next().dir == 1 ==> m.next().row == m.row && m.next().col == m.col + 1,
        m.next().dir == 2 ==> m.next().row == m.row + 1 && m.next().col == m.col,
        m.next().dir == 3 ==> m.next().row == m.row && m.next().col == m.col - 1,
        0 <= m.next().dir < 4,
{
}

/// A fresh simulation: each dimension the requested one raised to at least 2,
/// every cell white, the ant at the middle cell facing North, running, with
/// a zero counter.
pub proof fn law_fresh_state(rows: nat, cols: nat)
    ensures
        fresh(rows, cols).rows == (if rows < 2 { 2 } else { rows }),
        fresh(rows, cols).cols == (if cols < 2 { 2 } else { cols }),
        fresh(rows, cols).grid.len() == fresh(rows, cols).rows * fresh(rows, cols).cols,
        forall|i: int| 0 <= i < fresh(rows, cols).grid.len() ==> #[trigger] fresh(rows, cols).grid[i] == 0,
        fresh(rows, cols).row * 2 <= fresh(rows, cols).rows < fresh(rows, cols).row * 2 + 2,
        fresh(rows, cols).col * 2 <= fresh(rows, cols).cols < fresh(rows, cols).col * 2 + 2,
        fresh(rows, cols).dir == 0,
        !fresh(rows, cols).stopped,
        fresh(rows, cols).steps == 0,
{
}

/// A simulation started from a stored solution has the requested
/// dimensions, the solution's cells in row order, the ant at row `ant[0]`,
/// column `ant[1]` with direction `ant[2]` (as a byte), running, with a zero
/// counter.
pub proof fn law_loaded_state(rows: nat, cols: nat, sol: Solution)
    ensures
        loaded(rows, cols, sol).rows == rows,
        loaded(rows, cols, sol).cols == cols,
        loaded(rows, cols, sol).grid == decode_rows(sol.grid_text()),
        loaded(rows, cols, sol).row == sol.ant@[0],
        loaded(rows, cols, sol).col == sol.ant@[1],
        loaded(rows, cols, sol).dir == sol.ant@[2] as u8,
        0 <= sol.ant@[2] < 256 ==> loaded(rows, cols, sol).dir == sol.ant@[2],
        !loaded(rows, cols, sol).stopped,
        loaded(rows, cols, sol).steps == 0,
{
}

/// Writing a cell and reading it back gives the written value; the other
/// cells keep theirs.
pub proof fn law_cell_read_after_write(m: AntModel, r: int, c: int, v: u8, r2: int, c2: int)
    requires
        m.index_ok(r, c),
        m.index_ok(r2, c2),
    ensures
        m.with_cell(r, c, v).cell(r, c) == v,
        m.index(r2, c2) != m.index(r, c) ==> m.with_cell(r, c, v).cell(r2, c2) == m.cell(r2, c2),
        m.with_cell(r, c, v).index_ok(r2, c2),
{
}

/// Executable simulation state.
#[derive(Debug)]
pub struct LangtonsAnt {
    pub rows: usize,
    pub cols: usize,
    /// Flat row-major buffer: 0 = white, 1 = black, 2 = gray.
    pub grid: Vec<u8>,
    /// (row, col, direction)
    pub ant: (isize, isize, u8),
    pub stopped: bool,
    pub step_count: u64,
}

impl View for LangtonsAnt {
    type V = AntModel;

    open spec fn view(&self) -> AntModel {
        AntModel {
            rows: self.rows as nat,
            cols: self.cols as nat,
            grid: self.grid@,
            row: self.ant.0 as int,
            col: self.ant.1 as int,
            dir: self.ant.2 as int,
            stopped: self.stopped,
            steps: self.step_count as nat,
        }
    }
}

impl Clone for LangtonsAnt {
    /// An independent copy of the same state.
    fn clone(&self) -> (r: Self)
        ensures
            r@ == self@,
    {
        let grid = self.grid.clone();
        assert(grid@ =~= self.grid@);
        LangtonsAnt {
            rows: self.rows,
            cols: self.cols,
            grid,
            ant: self.ant,
            stopped: self.stopped,
            step_count: self.step_count,
        }
    }
}

/// Row and column offsets of a move in direction `dir`.
fn direction_delta(dir: u8) -> (d: (isize, isize))
    ensures
        d.0 == delta_row(dir as int),
        d.1 == delta_col(dir as int),
{
    if dir == 0 {
        (-1, 0)
    } else if dir == 1 {
        (0, 1)
    } else if dir == 2 {
        (1, 0)
    } else if dir == 3 {
        (0, -1)
    } else {
        (0, 0)
    }
}

impl LangtonsAnt {
    /// A fresh simulation: dimensions raised to at least 2, all cells white,
    /// the ant in the middle facing North.
    pub fn new(rows: usize, cols: usize) -> (a: Self)
        requires
            (if rows < 2 { 2 } else { rows }) * (if cols < 2 { 2 } else { cols }) <= isize::MAX,
        ensures
            a@ == fresh(rows as nat, cols as nat),
            a@.wf(),
    {
        let rows = if rows < 2 { 2 } else { rows };
        let cols = if cols < 2 { 2 } else { cols };
        proof {
            assert(rows <= rows * cols && cols <= rows * cols) by (nonlinear_arith)
                requires rows >= 2, cols >= 2;
        }
        let grid: Vec<u8> = vec![0; rows * cols];
        assert(grid@ =~= Seq::new((rows * cols) as nat, |i: int| 0u8));
        LangtonsAnt {
            rows,
            cols,
            grid,
            ant: (rows as isize / 2, cols as isize / 2, 0),
            stopped: false,
            step_count: 0,
        }
    }

    /// A simulation started from a stored solution. Each grid character
    /// `'0'`, `'1'`, `'2'` becomes one cell, row after row.
    pub fn from_solution(rows: usize, cols: usize, sol: &Solution) -> (a: Self)
        requires
            sol.grid_chars_valid(),
            rows * cols <= isize::MAX,
        ensures
            a@ == loaded(rows as nat, cols as nat, *sol),
    {
        let mut grid: Vec<u8> = Vec::with_capacity(rows * cols);
        let ghost text = sol.grid_text();
        let mut i: usize = 0;
        while i < sol.grid.len()
            invariant
                i <= sol.grid.len(),
                text == sol.grid_text(),
                sol.grid_chars_valid(),
                grid@ == decode_rows(text.take(i as int)),
            decreases sol.grid.len() - i,
        {
            let row: &String = &sol.grid[i];
            let ghost before = grid@;
            for ch in it: row.chars()
                invariant
                    sol.grid_chars_valid(),
                    row == &sol.grid@[i as int],
                    it.seq() == row@,
                    grid@ == before + decode_row(row@.take(it.index())),
            {
                let v: u8 = if ch == '0' {
                    0
                } else if ch == '1' {
                    1
                } else {
                    2
                };
                assert(row@.take(it.index() + 1) == row@.take(it.index()).push(ch));
                grid.push(v);
            }
            assert(row@.take(row@.len() as int) == row@);
            assert(text.take(i + 1).drop_last() == text.take(i as int));
            i += 1;
        }
        assert(text.take(sol.grid.len() as int) == text);
        LangtonsAnt {
            rows,
            cols,
            grid,
            ant: (sol.ant[0], sol.ant[1], sol.ant[2] as u8),
            stopped: false,
            step_count: 0,
        }
    }

    /// Whether `(r, c)` lies on the grid.
    pub fn in_bounds(&self, r: isize, c: isize) -> (b: bool)
        ensures
            b == (0 <= r && r < self.rows as isize && 0 <= c && c < self.cols as isize),
            self@.wf() ==> (b == self@.in_bounds(r as int, c as int)),
    {
        r >= 0 && r < self.rows as isize && c >= 0 && c < self.cols as isize
    }

    /// Position of cell `(r, c)` in the row-major buffer; for an in-bounds
    /// cell it lies below `rows * cols`.
    fn idx(&self, r: isize, c: isize) -> (i: usize)
        requires
            0 <= r,
            0 <= c,
            self@.index(r as int, c as int) <= usize::MAX,
        ensures
            i == self@.index(r as int, c as int),
            self@.in_bounds(r as int, c as int) ==> i < self@.rows * self@.cols,
    {
        let ru = r as usize;
        let cu = c as usize;
        proof {
            assert(0 <= r * self.cols) by (nonlinear_arith)
                requires 0 <= r, 0 <= self.cols;
            assert(ru as int == r as int && cu as int == c as int);
            if self@.in_bounds(r as int, c as int) {
                lemma_index_in_range(self.rows as int, self.cols as int, r as int, c as int);
            }
        }
        ru * self.cols + cu
    }

    /// The colour of cell `(r, c)`.
    pub fn cell(&self, r: isize, c: isize) -> (v: u8)
        requires
            self@.index_ok(r as int, c as int),
        ensures
            v == self@.cell(r as int, c as int),
    {
        proof {
            assert(self.grid@.len() == self.grid.len());
        }
        self.grid[self.idx(r, c)]
    }

    /// Sets the colour of cell `(r, c)` to `v`.
    pub fn set_cell(&mut self, r: isize, c: isize, v: u8)
        requires
            old(self)@.index_ok(r as int, c as int),
        ensures
            final(self)@ == old(self)@.with_cell(r as int, c as int, v),
    {
        proof {
            assert(self.grid@.len() == self.grid.len());
        }
        let i = self.idx(r, c);
        self.grid.set(i, v);
    }

    /// Whether the state is well-formed: dimensions that fit `isize`, a
    /// buffer that holds every in-bounds cell, one of the four directions.
    pub fn is_well_formed(&self) -> (b: bool)
        ensures
            b == self@.wf(),
    {
        if self.rows > isize::MAX as usize || self.cols > isize::MAX as usize {
            return false;
        }
        let len = self.grid.len();
        match self.rows.checked_mul(self.cols) {
            Some(n) => n <= len && self.ant.2 < 4,
            None => false,
        }
    }

    /// Whether the next step can be taken (see `AntModel::can_step`).
    pub fn can_step(&self) -> (b: bool)
        requires
            self@.wf(),
        ensures
            b == self@.can_step(),
    {
        let (r, c, _) = self.ant;
        if self.stopped || !self.in_bounds(r, c) {
            return true;
        }
        proof {
            lemma_index_in_range(self.rows as int, self.cols as int, r as int, c as int);
        }
        self.cell(r, c) <= 1 && self.step_count < u64::MAX
    }

    /// Whether each of the next `n` steps can be taken; tried on a copy.
    pub fn safe_for(&self, n: u64) -> (b: bool)
        requires
            self@.wf(),
        ensures
            b == self@.safe_for(n as nat),
    {
        let mut probe = self.clone();
        let mut i: u64 = 0;
        while i < n
            invariant
                i <= n,
                self@.wf(),
                probe@ == self@.run(i as nat),
                probe@.wf(),
                forall|k: nat| k < i ==> #[trigger] self@.run(k).can_step(),
            decreases n - i,
        {
            if !probe.can_step() {
                assert(!self@.run(i as nat).can_step());
                return false;
            }
            if probe.stopped {
                assert forall|k: nat| k < n implies #[trigger] self@.run(k).can_step() by {
                    if k >= i {
                        law_run_add(self@, i as nat, (k - i) as nat);
                        law_stopped_is_final(self@.run(i as nat), (k - i) as nat);
                    }
                }
                return true;
            }
            probe.step();
            i = i + 1;
        }
        true
    }

    /// One simulation step. Returns `true` while the ant is still inside.
    pub fn step(&mut self) -> (moved: bool)
        requires
            old(self)@.wf(),
            old(self)@.can_step(),
        ensures
            final(self)@ == old(self)@.next(),
            final(self)@.wf(),
            moved == !final(self)@.stopped,
    {
        if self.stopped {
            return false;
        }
        let (r, c, d) = self.ant;
        if !self.in_bounds(r, c) {
            self.stopped = true;
            return false;
        }
        proof {
            lemma_index_in_range(self.rows as int, self.cols as int, r as int, c as int);
        }
        let color = self.cell(r, c);
        self.set_cell(r, c, 1 - color);
        let new_dir: u8 = if color == 0 {
            assert(((d + 1) as u8) & 3 == ((d + 1) as u8) % 4) by (bit_vector)
                requires d < 4;
            (d + 1) & 3
        } else {
            assert(((d + 3) as u8) & 3 == ((d + 3) as u8) % 4) by (bit_vector)
                requires d < 4;
            (d + 3) & 3
        };
        let (dr, dc) = direction_delta(new_dir);
        let nr = r + dr;
        let nc = c + dc;
        self.ant = (nr, nc, new_dir);
        self.step_count += 1;
        if !self.in_bounds(nr, nc) {
            self.stopped = true;
            return false;
        }
        true
    }

    /// Run up to `n` steps (stops early if the ant exits).
    pub fn run_n(&mut self, n: usize)
        requires
            old(self)@.wf(),
            old(self)@.safe_for(n as nat),
        ensures
            final(self)@ == old(self)@.run(n as nat),
            final(self)@.wf(),
    {
        let ghost start = self@;
        let mut i: usize = 0;
        while i < n
            invariant_except_break
                i <= n,
                self@ == start.run(i as nat),
            invariant
                start.wf(),
                start.safe_for(n as nat),
                self@.wf(),
            ensures
                self@ == start.run(n as nat),
            decreases n - i,
        {
            assert(start.run(i as nat).can_step());
            let moved = self.step();
            assert(self@ == start.run((i + 1) as nat));
            i = i + 1;
            if !moved {
                proof {
                    law_stopped_is_final(self@, (n - i) as nat);
                    law_run_add(start, i as nat, (n - i) as nat);
                }
                break;
            }
        }
    }
}

} // verus!
