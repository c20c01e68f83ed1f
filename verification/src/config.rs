//! Stored start configurations: for each grid size, the solutions that were
//! found for it.
use vstd::prelude::*;

verus! {

/// All stored configurations.
pub struct Root {
    pub best_grids: Vec<GridBlock>,
}

/// The solutions for one grid size.
pub struct GridBlock {
    pub rows: usize,
    pub cols: usize,
    pub solution: Vec<Solution>,
}

/// One start configuration: the grid as rows of `'0'`, `'1'`, `'2'`
/// characters and the ant as `[row, col, dir]`.
pub struct Solution {
    pub name: String,
    pub steps: u64,
    pub ant: [isize; 3],
    pub grid: Vec<String>,
}

/// The cell value that a grid character stands for.
pub open spec fn cell_code(ch: char) -> u8 {
    if ch == '0' { 0 } else if ch == '1' { 1 } else { 2 }
}

/// A grid character is one of `'0'`, `'1'`, `'2'`.
pub open spec fn is_cell_char(ch: char) -> bool {
    ch == '0' || ch == '1' || ch == '2'
}

/// The cell values of one row of text.
pub open spec fn decode_row(text: Seq<char>) -> Seq<u8> {
    text.map_values(|ch: char| cell_code(ch))
}

/// The cell values of rows of text, concatenated row after row.
pub open spec fn decode_rows(rows: Seq<Seq<char>>) -> Seq<u8>
    decreases rows.len(),
{
    if rows.len() == 0 {
        Seq::empty()
    } else {
        decode_rows(rows.drop_last()) + decode_row(rows.last())
    }
}

/// `'0'` is white, `'1'` black, `'2'` gray; each character of a row becomes
/// one cell, in order.
pub proof fn law_decode_row(text: Seq<char>, j: int)
    requires
        0 <= j < text.len(),
    ensures
        cell_code('0') == 0 && cell_code('1') == 1 && cell_code('2') == 2,
        decode_row(text).len() == text.len(),
        text[j] == '0' ==> decode_row(text)[j] == 0,
        text[j] == '1' ==> decode_row(text)[j] == 1,
        text[j] == '2' ==> decode_row(text)[j] == 2,
{
}

/// Rows of equal width `w` decode row-major: character `j` of row `i`
/// becomes cell `i * w + j`.
pub proof fn law_decode_rows_row_major(rows: Seq<Seq<char>>, w: int, i: int, j: int)
    requires
        w >= 0,
        forall|k: int| 0 <= k < rows.len() ==> #[trigger] rows[k].len() == w,
        0 <= i < rows.len(),
        0 <= j < w,
    ensures
        decode_rows(rows).len() == rows.len() * w,
        0 <= i * w + j < rows.len() * w,
        decode_rows(rows)[i * w + j] == cell_code(rows[i][j]),
    decreases rows.len(),
{
    lemma_decode_rows_len(rows, w);
    let n = rows.len() - 1;
    let front = rows.drop_last();
    assert forall|k: int| 0 <= k < front.len() implies #[trigger] front[k].len() == w by {
        assert(front[k] == rows[k]);
    }
    lemma_decode_rows_len(front, w);
    assert(decode_rows(rows) == decode_rows(front) + decode_row(rows.last()));
    if i < n {
        assert(i * w + j < n * w) by (nonlinear_arith)
            requires i + 1 <= n, 0 <= j < w;
        assert(0 <= i * w) by (nonlinear_arith)
            requires 0 <= i, 0 <= w;
        law_decode_rows_row_major(front, w, i, j);
        assert(front[i] == rows[i]);
        assert(n * w <= rows.len() * w) by (nonlinear_arith)
            requires n + 1 == rows.len(), 0 <= w;
    } else {
        assert(i * w == n * w);
        assert(0 <= n * w) by (nonlinear_arith)
            requires 0 <= n, 0 <= w;
        assert(rows.len() * w == n * w + w) by (nonlinear_arith)
            requires n + 1 == rows.len();
        assert(decode_rows(rows)[i * w + j] == decode_row(rows.last())[j]);
    }
}

proof fn lemma_decode_rows_len(rows: Seq<Seq<char>>, w: int)
    requires
        w >= 0,
        forall|k: int| 0 <= k < rows.len() ==> #[trigger] rows[k].len() == w,
    ensures
        decode_rows(rows).len() == rows.len() * w,
    decreases rows.len(),
{
    if rows.len() > 0 {
        let front = rows.drop_last();
        assert forall|k: int| 0 <= k < front.len() implies #[trigger] front[k].len() == w by {
            assert(front[k] == rows[k]);
        }
        lemma_decode_rows_len(front, w);
        assert(rows.len() * w == (rows.len() - 1) * w + w) by (nonlinear_arith);
        assert(rows[rows.len() - 1].len() == w);
    }
}

/// Every decoded cell is white, black or gray.
pub proof fn lemma_decoded_in_palette(rows: Seq<Seq<char>>)
    ensures
        forall|i: int| 0 <= i < decode_rows(rows).len() ==> #[trigger] decode_rows(rows)[i] <= 2,
    decreases rows.len(),
{
    if rows.len() > 0 {
        lemma_decoded_in_palette(rows.drop_last());
        let front = decode_rows(rows.drop_last());
        let back = decode_row(rows.last());
        assert(decode_rows(rows) == front + back);
        assert forall|i: int| 0 <= i < decode_rows(rows).len() implies #[trigger] decode_rows(
            rows,
        )[i] <= 2 by {
            if i >= front.len() {
                assert(decode_rows(rows)[i] == back[i - front.len()]);
            } else {
                assert(decode_rows(rows)[i] == front[i]);
            }
        }
    }
}

impl Root {
    /// Block `i` holds the solutions of a `rows` × `cols` grid.
    pub open spec fn block_is(&self, i: int, rows: usize, cols: usize) -> bool {
        self.best_grids@[i].rows == rows && self.best_grids@[i].cols == cols
    }

    /// The position of the first block for a `rows` × `cols` grid, if any.
    pub fn find_block(&self, rows: usize, cols: usize) -> (r: Option<usize>)
        ensures
            match r {
                Some(i) => {
                    &&& i < self.best_grids@.len()
                    &&& self.block_is(i as int, rows, cols)
                    &&& forall|j: int| 0 <= j < i ==> !#[trigger] self.block_is(j, rows, cols)
                },
                None => forall|j: int|
                    0 <= j < self.best_grids@.len() ==> !#[trigger] self.block_is(j, rows, cols),
            },
    {
        let mut i: usize = 0;
        while i < self.best_grids.len()
            invariant
                i <= self.best_grids@.len(),
                forall|j: int| 0 <= j < i ==> !#[trigger] self.block_is(j, rows, cols),
            decreases self.best_grids.len() - i,
        {
            let g = &self.best_grids[i];
            if g.rows == rows && g.cols == cols {
                return Some(i);
            }
            i += 1;
        }
        None
    }

    /// Whether some block is for a grid of `cols` columns and a number of rows
    /// from `rows_from` to `rows_to`, both included.
    pub fn has_block_in_rows(&self, rows_from: usize, rows_to: usize, cols: usize) -> (b: bool)
        ensures
            b == exists|j: int|
                0 <= j < self.best_grids@.len() && #[trigger] self.best_grids@[j].cols == cols
                    && rows_from <= self.best_grids@[j].rows <= rows_to,
    {
        let mut i: usize = 0;
        while i < self.best_grids.len()
            invariant
                i <= self.best_grids@.len(),
                forall|j: int|
                    0 <= j < i ==> !(#[trigger] self.best_grids@[j].cols == cols && rows_from
                        <= self.best_grids@[j].rows <= rows_to),
            decreases self.best_grids.len() - i,
        {
            let g = &self.best_grids[i];
            if g.cols == cols && rows_from <= g.rows && g.rows <= rows_to {
                return true;
            }
            i += 1;
        }
        false
    }
}

impl Solution {
    /// The grid rows as character sequences.
    pub open spec fn grid_text(&self) -> Seq<Seq<char>> {
        self.grid@.map_values(|s: String| s@)
    }

    /// Every grid character is a cell character.
    pub open spec fn grid_chars_valid(&self) -> bool {
        forall|i: int, j: int|
            0 <= i < self.grid@.len() && 0 <= j < self.grid@[i]@.len()
                ==> is_cell_char(#[trigger] self.grid@[i]@[j])
    }
}

} // verus!
