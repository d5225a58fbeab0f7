//! The record source: a rectangular grid of text cells.

use vstd::prelude::*;

verus! {

/// A rectangular grid of strings, the data behind a table.
pub struct Records {
    cols: usize,
    rows: Vec<Vec<String>>,
}

impl Records {
    /// Every stored row has exactly `cols` cells.
    pub closed spec fn wf(self) -> bool {
        forall|r: int| 0 <= r < self.rows@.len() ==> (#[trigger] self.rows@[r])@.len() == self.cols
    }

    /// The grid as a sequence of rows of cell texts.
    pub closed spec fn grid(self) -> Seq<Seq<Seq<char>>> {
        Seq::new(
            self.rows@.len(),
            |r: int| Seq::new(self.rows@[r]@.len(), |c: int| self.rows@[r]@[c]@),
        )
    }

    pub closed spec fn row_count_spec(self) -> nat {
        self.rows@.len()
    }

    pub closed spec fn col_count_spec(self) -> nat {
        self.cols as nat
    }

    /// A well-formed grid is rectangular: as many rows as the row count,
    /// each as long as the column count.
    pub proof fn lemma_grid_shape(self)
        requires
            self.wf(),
        ensures
            self.grid().len() == self.row_count_spec(),
            forall|r: int|
                0 <= r < self.row_count_spec() ==> (#[trigger] self.grid()[r]).len()
                    == self.col_count_spec(),
    {
    }

    /// An empty grid with no rows and no columns.
    pub fn new() -> (r: Records)
        ensures
            r.wf(),
            r.row_count_spec() == 0,
            r.col_count_spec() == 0,
    {
        Records { cols: 0, rows: Vec::new() }
    }

    /// Builds a grid from the given rows.  The column count is the longest
    /// row's length; shorter rows are padded with empty cells on the right.
    pub fn from_rows(data: Vec<Vec<String>>) -> (r: Records)
        ensures
            r.wf(),
            r.row_count_spec() == data@.len(),
            forall|i: int|
                0 <= i < data@.len() ==> (#[trigger] data@[i])@.len() <= r.col_count_spec(),
            (exists|i: int|
                0 <= i < data@.len() && (#[trigger] data@[i])@.len() == r.col_count_spec()) || (
            r.col_count_spec() == 0),
            forall|i: int, j: int|
                0 <= i < data@.len() && 0 <= j < r.col_count_spec() ==> #[trigger] r.grid()[i][j]
                    == if j < data@[i]@.len() {
                    data@[i]@[j]@
                } else {
                    Seq::<char>::empty()
                },
    {
        let mut cols: usize = 0;
        let mut i: usize = 0;
        while i < data.len()
            invariant
                i <= data@.len(),
                forall|k: int| 0 <= k < i ==> (#[trigger] data@[k])@.len() <= cols,
                (exists|k: int| 0 <= k < i && (#[trigger] data@[k])@.len() == cols) || cols == 0,
            decreases data@.len() - i,
        {
            if data[i].len() > cols {
                cols = data[i].len();
            }
            i = i + 1;
        }
        let mut rows: Vec<Vec<String>> = Vec::new();
        let mut i: usize = 0;
        while i < data.len()
            invariant
                i <= data@.len(),
                rows@.len() == i,
                forall|k: int| 0 <= k < data@.len() ==> (#[trigger] data@[k])@.len() <= cols,
                forall|k: int| 0 <= k < i ==> (#[trigger] rows@[k])@.len() == cols,
                forall|k: int, j: int|
                    0 <= k < i && 0 <= j < cols ==> (#[trigger] rows@[k]@[j])@ == if j
                        < data@[k]@.len() {
                        data@[k]@[j]@
                    } else {
                        Seq::<char>::empty()
                    },
            decreases data@.len() - i,
        {
            let src = &data[i];
            let mut row: Vec<String> = Vec::new();
            let mut j: usize = 0;
            while j < cols
                invariant
                    j <= cols,
                    row@.len() == j,
                    src == &data@[i as int],
                    i < data@.len(),
                    src@.len() <= cols,
                    forall|t: int|
                        0 <= t < j ==> (#[trigger] row@[t])@ == if t < src@.len() {
                            src@[t]@
                        } else {
                            Seq::<char>::empty()
                        },
                decreases cols - j,
            {
                if j < src.len() {
                    row.push(src[j].clone());
                } else {
                    row.push(String::new());
                }
                j = j + 1;
            }
            rows.push(row);
            i = i + 1;
        }
        let r = Records { cols, rows };
        proof {
            assert forall|i: int, j: int|
                0 <= i < data@.len() && 0 <= j < r.col_count_spec() implies #[trigger] r.grid(
            )[i][j] == if j < data@[i]@.len() {
                data@[i]@[j]@
            } else {
                Seq::<char>::empty()
            } by {
                assert(r.grid()[i][j] == r.rows@[i]@[j]@);
            }
        }
        r
    }

    /// The number of rows.
    pub fn count_rows(&self) -> (r: usize)
        ensures
            r == self.row_count_spec(),
    {
        self.rows.len()
    }

    /// The number of columns.
    pub fn count_columns(&self) -> (r: usize)
        ensures
            r == self.col_count_spec(),
    {
        self.cols
    }

    /// The text of the cell at `(row, col)`.
    pub fn get(&self, row: usize, col: usize) -> (r: &String)
        requires
            self.wf(),
            row < self.row_count_spec(),
            col < self.col_count_spec(),
        ensures
            r@ == self.grid()[row as int][col as int],
    {
        &self.rows[row][col]
    }

    /// Replaces the text of the cell at `(row, col)`.
    pub fn set_text(&mut self, row: usize, col: usize, text: String)
        requires
            old(self).wf(),
            row < old(self).row_count_spec(),
            col < old(self).col_count_spec(),
        ensures
            final(self).wf(),
            final(self).row_count_spec() == old(self).row_count_spec(),
            final(self).col_count_spec() == old(self).col_count_spec(),
            final(self).grid() =~~= old(self).grid().update(
                row as int,
                old(self).grid()[row as int].update(col as int, text@),
            ),
    {
        let target = &mut self.rows[row];
        target[col] = text;
    }

    /// Appends one row of empty cells.
    pub fn push_row(&mut self)
        requires
            old(self).wf(),
        ensures
            final(self).wf(),
            final(self).row_count_spec() == old(self).row_count_spec() + 1,
            final(self).col_count_spec() == old(self).col_count_spec(),
            final(self).grid() =~~= old(self).grid().push(
                Seq::new(old(self).col_count_spec() as int as nat, |c: int| Seq::<char>::empty()),
            ),
    {
        let mut row: Vec<String> = Vec::new();
        let mut j: usize = 0;
        while j < self.cols
            invariant
                j <= self.cols,
                row@.len() == j,
                forall|t: int| 0 <= t < j ==> (#[trigger] row@[t])@ == Seq::<char>::empty(),
            decreases self.cols - j,
        {
            row.push(String::new());
            j = j + 1;
        }
        self.rows.push(row);
    }

    /// The grid rotated a quarter turn counterclockwise: row `i` of the
    /// result is the old column `cols - 1 - i`.
    pub fn rotated_left(&self) -> (r: Records)
        requires
            self.wf(),
        ensures
            r.wf(),
            r.row_count_spec() == self.col_count_spec(),
            r.col_count_spec() == self.row_count_spec(),
            forall|i: int, j: int|
                0 <= i < r.row_count_spec() && 0 <= j < r.col_count_spec()
                    ==> #[trigger] r.grid()[i][j] == self.grid()[j][self.col_count_spec() - 1 - i],
    {
        let nrows = self.count_rows();
        let ncols = self.count_columns();
        let mut rows: Vec<Vec<String>> = Vec::new();
        let mut i: usize = 0;
        while i < ncols
            invariant
                i <= ncols,
                self.wf(),
                nrows == self.row_count_spec(),
                ncols == self.col_count_spec(),
                rows@.len() == i,
                forall|k: int| 0 <= k < i ==> (#[trigger] rows@[k])@.len() == nrows,
                forall|k: int, j: int|
                    0 <= k < i && 0 <= j < nrows ==> (#[trigger] rows@[k]@[j])@ == self.grid(
                    )[j][ncols - 1 - k],
            decreases ncols - i,
        {
            let mut row: Vec<String> = Vec::new();
            let mut j: usize = 0;
            while j < nrows
                invariant
                    j <= nrows,
                    i < ncols,
                    self.wf(),
                    nrows == self.row_count_spec(),
                    ncols == self.col_count_spec(),
                    row@.len() == j,
                    forall|t: int|
                        0 <= t < j ==> (#[trigger] row@[t])@ == self.grid()[t][ncols - 1 - i],
                decreases nrows - j,
            {
                row.push(self.get(j, ncols - 1 - i).clone());
                j = j + 1;
            }
            rows.push(row);
            i = i + 1;
        }
        let r = Records { cols: nrows, rows };
        proof {
            assert forall|i: int, j: int|
                0 <= i < r.row_count_spec() && 0 <= j < r.col_count_spec() implies #[trigger] r.grid(
            )[i][j] == self.grid()[j][self.col_count_spec() - 1 - i] by {
                assert(r.grid()[i][j] == r.rows@[i]@[j]@);
            }
        }
        r
    }

    /// The grid rotated a quarter turn clockwise: row `i` of the result is
    /// the old column `i` read from the last row up.
    pub fn rotated_right(&self) -> (r: Records)
        requires
            self.wf(),
        ensures
            r.wf(),
            r.row_count_spec() == self.col_count_spec(),
            r.col_count_spec() == self.row_count_spec(),
            forall|i: int, j: int|
                0 <= i < r.row_count_spec() && 0 <= j < r.col_count_spec()
                    ==> #[trigger] r.grid()[i][j] == self.grid()[self.row_count_spec() - 1 - j][i],
    {
        let nrows = self.count_rows();
        let ncols = self.count_columns();
        let mut rows: Vec<Vec<String>> = Vec::new();
        let mut i: usize = 0;
        while i < ncols
            invariant
                i <= ncols,
                self.wf(),
                nrows == self.row_count_spec(),
                ncols == self.col_count_spec(),
                rows@.len() == i,
                forall|k: int| 0 <= k < i ==> (#[trigger] rows@[k])@.len() == nrows,
                forall|k: int, j: int|
                    0 <= k < i && 0 <= j < nrows ==> (#[trigger] rows@[k]@[j])@ == self.grid(
                    )[nrows - 1 - j][k],
            decreases ncols - i,
        {
            let mut row: Vec<String> = Vec::new();
            let mut j: usize = 0;
            while j < nrows
                invariant
                    j <= nrows,
                    i < ncols,
                    self.wf(),
                    nrows == self.row_count_spec(),
                    ncols == self.col_count_spec(),
                    row@.len() == j,
                    forall|t: int|
                        0 <= t < j ==> (#[trigger] row@[t])@ == self.grid()[nrows - 1 - t][i as int],
                decreases nrows - j,
            {
                row.push(self.get(nrows - 1 - j, i).clone());
                j = j + 1;
            }
            rows.push(row);
            i = i + 1;
        }
        let r = Records { cols: nrows, rows };
        proof {
            assert forall|i: int, j: int|
                0 <= i < r.row_count_spec() && 0 <= j < r.col_count_spec() implies #[trigger] r.grid(
            )[i][j] == self.grid()[self.row_count_spec() - 1 - j][i] by {
                assert(r.grid()[i][j] == r.rows@[i]@[j]@);
            }
        }
        r
    }

    /// The grid with its rows in reverse order.
    pub fn reversed_rows(&self) -> (r: Records)
        requires
            self.wf(),
        ensures
            r.wf(),
            r.row_count_spec() == self.row_count_spec(),
            r.col_count_spec() == self.col_count_spec(),
            forall|i: int, j: int|
                0 <= i < r.row_count_spec() && 0 <= j < r.col_count_spec()
                    ==> #[trigger] r.grid()[i][j] == self.grid()[self.row_count_spec() - 1 - i][j],
    {
        let nrows = self.count_rows();
        let ncols = self.count_columns();
        let mut rows: Vec<Vec<String>> = Vec::new();
        let mut i: usize = 0;
        while i < nrows
            invariant
                i <= nrows,
                self.wf(),
                nrows == self.row_count_spec(),
                ncols == self.col_count_spec(),
                rows@.len() == i,
                forall|k: int| 0 <= k < i ==> (#[trigger] rows@[k])@.len() == ncols,
                forall|k: int, j: int|
                    0 <= k < i && 0 <= j < ncols ==> (#[trigger] rows@[k]@[j])@ == self.grid(
                    )[nrows - 1 - k][j],
            decreases nrows - i,
        {
            let mut row: Vec<String> = Vec::new();
            let mut j: usize = 0;
            while j < ncols
                invariant
                    j <= ncols,
                    i < nrows,
                    self.wf(),
                    nrows == self.row_count_spec(),
                    ncols == self.col_count_spec(),
                    row@.len() == j,
                    forall|t: int|
                        0 <= t < j ==> (#[trigger] row@[t])@ == self.grid()[nrows - 1 - i][t],
                decreases ncols - j,
            {
                row.push(self.get(nrows - 1 - i, j).clone());
                j = j + 1;
            }
            rows.push(row);
            i = i + 1;
        }
        let r = Records { cols: ncols, rows };
        proof {
            assert forall|i: int, j: int|
                0 <= i < r.row_count_spec() && 0 <= j < r.col_count_spec() implies #[trigger] r.grid(
            )[i][j] == self.grid()[self.row_count_spec() - 1 - i][j] by {
                assert(r.grid()[i][j] == r.rows@[i]@[j]@);
            }
        }
        r
    }

    /// Swaps the rows `a` and `b`.
    pub fn swap_row(&mut self, a: usize, b: usize)
        requires
            old(self).wf(),
            a < old(self).row_count_spec(),
            b < old(self).row_count_spec(),
        ensures
            final(self).wf(),
            final(self).row_count_spec() == old(self).row_count_spec(),
            final(self).col_count_spec() == old(self).col_count_spec(),
            final(self).grid() =~~= old(self).grid().update(
                a as int,
                old(self).grid()[b as int],
            ).update(b as int, old(self).grid()[a as int]),
    {
        if a == b {
            proof {
                assert(self.grid() =~~= old(self).grid().update(
                    a as int,
                    old(self).grid()[b as int],
                ).update(b as int, old(self).grid()[a as int]));
            }
            return ;
        }
        let lo: usize = if a < b {
            a
        } else {
            b
        };
        let hi: usize = if a < b {
            b
        } else {
            a
        };
        let row_hi = self.rows.remove(hi);
        let row_lo = self.rows.remove(lo);
        self.rows.insert(lo, row_hi);
        self.rows.insert(hi, row_lo);
        proof {
            assert(self.rows@ =~= old(self).rows@.update(
                lo as int,
                old(self).rows@[hi as int],
            ).update(hi as int, old(self).rows@[lo as int]));
            assert(self.grid() =~~= old(self).grid().update(
                a as int,
                old(self).grid()[b as int],
            ).update(b as int, old(self).grid()[a as int]));
        }
    }
}

} // verus!
