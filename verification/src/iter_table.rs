//! A table over a streamed record source: dimensions are fixed up front
//! (measured over a sniffed prefix of the rows, or set outright), and every
//! cell is cut to its column on the way through.

use vstd::prelude::*;

use crate::config::GridConfig;
use crate::entity::Entity;
use crate::estimate::cell_lines;
use crate::estimate::cell_lines_spec;
use crate::estimate::content_width;
use crate::estimate::max_line_width;
use crate::records::Records;
use crate::render::render_grid;
use crate::render::render_spec;
use crate::text::sadd;
use crate::text::ssub;
use crate::text::usat_add;
use crate::text::usat_sub;
use crate::text::width_cap;
use crate::truncate::cell_truncated_full_spec;
use crate::truncate::Truncate;
use crate::truncate::TruncateSuffix;

verus! {

/// The width choice of a streamed table: one width per column, or one
/// width for all.
#[derive(Clone, Debug)]
pub enum IterWidth {
    /// A width per column; a column past the list gets zero.
    List(Vec<usize>),
    /// The same width for every column.
    Exact(usize),
}

/// Fixed dimensions for a streamed table: widths decided up front and one
/// height for every row.
#[derive(Clone, Debug)]
pub struct IterTableDimension {
    /// The column widths.
    pub width: IterWidth,
    /// The height of every row.
    pub height: usize,
}

impl IterTableDimension {
    /// Dimensions from a width choice and a row height.
    pub fn new(width: IterWidth, height: usize) -> (r: IterTableDimension)
        ensures
            r.width == width,
            r.height == height,
    {
        IterTableDimension { width, height }
    }

    /// The width of `column`: its list entry, zero past the list, or the
    /// shared exact width.
    pub fn get_width(&self, column: usize) -> (r: usize)
        ensures
            match self.width {
                IterWidth::List(l) => r == if (column as int) < l@.len() {
                    l@[column as int]
                } else {
                    0
                },
                IterWidth::Exact(w) => r == w,
            },
    {
        match &self.width {
            IterWidth::List(l) => if column < l.len() {
                l[column]
            } else {
                0
            },
            IterWidth::Exact(w) => *w,
        }
    }

    /// The height of every row.
    pub fn get_height(&self, _row: usize) -> (r: usize)
        ensures
            r == self.height,
    {
        self.height
    }
}

/// A table over streamed rows.  Column count and widths come from the
/// first `sniff` rows unless set outright; text that does not fit its
/// column is cut.
pub struct IterTable {
    /// The rows of the source.
    pub data: Vec<Vec<String>>,
    /// The configuration the table is laid out with.
    pub cfg: GridConfig,
    /// How many leading rows the widths are measured over.
    pub sniff: usize,
    /// The height of every rendered row.
    pub height: usize,
    /// A width forced on every column, padding included.
    pub width: Option<usize>,
    /// A forced column count.
    pub cols: Option<usize>,
    /// A cap on the number of rows shown.
    pub rows: Option<usize>,
}

/// How many of the source rows are shown: all of them, or the cap.
pub open spec fn shown_count(t: IterTable) -> int {
    match t.rows {
        Some(n) => if (n as int) < t.data@.len() {
            n as int
        } else {
            t.data@.len() as int
        },
        None => t.data@.len() as int,
    }
}

/// How many leading shown rows the widths are measured over.
pub open spec fn sniff_count(t: IterTable) -> int {
    if (t.sniff as int) < shown_count(t) {
        t.sniff as int
    } else {
        shown_count(t)
    }
}

/// The length of the longest row among the first `i` source rows.
pub open spec fn widest_row(t: IterTable, i: int) -> int
    decreases i,
{
    if i <= 0 {
        0
    } else {
        let prev = widest_row(t, i - 1);
        if t.data@[i - 1]@.len() > prev {
            t.data@[i - 1]@.len() as int
        } else {
            prev
        }
    }
}

/// The table's column count: forced, or the longest sniffed row.
pub open spec fn col_count(t: IterTable) -> int {
    match t.cols {
        Some(n) => n as int,
        None => widest_row(t, sniff_count(t)),
    }
}

/// The text of source cell `(i, j)`: the field, or empty past the row's
/// end.
pub open spec fn source_cell(t: IterTable, i: int, j: int) -> Seq<char> {
    if j < t.data@[i]@.len() {
        t.data@[i]@[j]@
    } else {
        Seq::<char>::empty()
    }
}

/// The widest processed content among the first `i` sniffed cells of
/// column `c`.
pub open spec fn measured_width(t: IterTable, c: int, i: int) -> usize
    decreases i,
{
    if i <= 0 {
        0
    } else {
        let prev = measured_width(t, c, i - 1);
        let w = width_cap(
            max_line_width(
                cell_lines_spec(
                    source_cell(t, i - 1, c),
                    t.cfg.formatting_spec(i - 1, c),
                    t.cfg.tab_width as nat,
                ),
            ),
        );
        if w > prev {
            w
        } else {
            prev
        }
    }
}

/// The left-plus-right padding the configuration gives the first cell;
/// the streamed table assumes one padding for all its cells.
pub open spec fn pad_total_spec(t: IterTable) -> usize {
    sadd(t.cfg.padding_spec(0, 0).left.size, t.cfg.padding_spec(0, 0).right.size)
}

/// The content width of column `c`: the forced width less the padding, or
/// the widest sniffed content.
pub open spec fn content_width_of(t: IterTable, c: int) -> usize {
    match t.width {
        Some(w) => ssub(w, pad_total_spec(t)),
        None => measured_width(t, c, sniff_count(t)),
    }
}

/// What shown cell `(i, j)` holds after the cut to its column's content
/// width.
pub open spec fn shown_cell(t: IterTable, i: int, j: int) -> Seq<char> {
    cell_truncated_full_spec(
        source_cell(t, i, j),
        t.cfg.tab_width as nat,
        content_width_of(t, j),
        None::<TruncateSuffix>,
    )
}

/// The box widths of the columns `0 .. c`: content plus padding.
pub open spec fn box_widths(t: IterTable, c: int) -> Seq<usize>
    decreases c,
{
    if c <= 0 {
        Seq::empty()
    } else {
        box_widths(t, c - 1).push(sadd(content_width_of(t, c - 1), pad_total_spec(t)))
    }
}

/// The heights of the rows `0 .. r`: the fixed height for each.
pub open spec fn row_heights(t: IterTable, r: int) -> Seq<usize>
    decreases r,
{
    if r <= 0 {
        Seq::empty()
    } else {
        row_heights(t, r - 1).push(t.height)
    }
}

impl IterTable {
    /// A table over the given rows: the default configuration, widths
    /// measured over the first thousand rows, one line per row, nothing
    /// forced.
    pub fn new(data: Vec<Vec<String>>) -> (r: IterTable)
        ensures
            r.data == data,
            crate::config::is_default_cfg(r.cfg),
            r.sniff == 1000,
            r.height == 1,
            r.width is None,
            r.cols is None,
            r.rows is None,
    {
        IterTable {
            data,
            cfg: GridConfig::new(),
            sniff: 1000,
            height: 1,
            width: None,
            cols: None,
            rows: None,
        }
    }

    /// Forces every column to `w` characters, padding included.
    pub fn width(self, w: usize) -> (r: IterTable)
        ensures
            r == (IterTable { width: Some(w), ..self }),
    {
        IterTable { width: Some(w), ..self }
    }

    /// Sets the height of every rendered row.
    pub fn height(self, h: usize) -> (r: IterTable)
        ensures
            r == (IterTable { height: h, ..self }),
    {
        IterTable { height: h, ..self }
    }

    /// Shows only the first `n` rows.
    pub fn rows(self, n: usize) -> (r: IterTable)
        ensures
            r == (IterTable { rows: Some(n), ..self }),
    {
        IterTable { rows: Some(n), ..self }
    }

    /// Shows only the first `n` columns.
    pub fn cols(self, n: usize) -> (r: IterTable)
        ensures
            r == (IterTable { cols: Some(n), ..self }),
    {
        IterTable { cols: Some(n), ..self }
    }

    /// Measures the widths over the first `n` rows only.
    pub fn sniff(self, n: usize) -> (r: IterTable)
        ensures
            r == (IterTable { sniff: n, ..self }),
    {
        IterTable { sniff: n, ..self }
    }

    /// Renders the table.  The output is the grid of the shown rows —
    /// each cell cut to its column's content width — laid out under the
    /// table's configuration with the measured (or forced) box widths and
    /// the fixed row heights; with no rows or no columns to show it is
    /// the empty string.
    pub fn render(&self) -> (r: String)
        ensures
            self.rows == Some(0usize) ==> r@ == Seq::<char>::empty(),
            self.cols == Some(0usize) ==> r@ == Seq::<char>::empty(),
            self.data@.len() == 0 ==> r@ == Seq::<char>::empty(),
            self.cols is None && self.sniff == 0 ==> r@ == Seq::<char>::empty(),
            shown_count(*self) == 0 || col_count(*self) == 0 ==> r@ == Seq::<char>::empty(),
            shown_count(*self) > 0 && col_count(*self) > 0 ==> (exists|recs: Records|
                {
                    &&& #[trigger] recs.wf()
                    &&& recs.row_count_spec() == shown_count(*self)
                    &&& recs.col_count_spec() == col_count(*self)
                    &&& (forall|i: int, j: int|
                        0 <= i < shown_count(*self) && 0 <= j < col_count(*self)
                            ==> #[trigger] recs.grid()[i][j] == shown_cell(*self, i, j))
                    &&& r@ == render_spec(
                        recs,
                        self.cfg,
                        box_widths(*self, col_count(*self)),
                        row_heights(*self, shown_count(*self)),
                    )
                }),
    {
        let ghost t = *self;
        // the rows that are shown
        let nshown: usize = match self.rows {
            Some(n) => if n < self.data.len() {
                n
            } else {
                self.data.len()
            },
            None => self.data.len(),
        };
        let nsniff: usize = if self.sniff < nshown {
            self.sniff
        } else {
            nshown
        };
        // the column count: forced, or the longest sniffed row
        let ncols: usize = match self.cols {
            Some(n) => n,
            None => {
                let mut best: usize = 0;
                let mut i: usize = 0;
                while i < nsniff
                    invariant
                        i <= nsniff,
                        t == *self,
                        nsniff == sniff_count(t),
                        nsniff <= t.data@.len(),
                        best == widest_row(t, i as int),
                    decreases nsniff - i,
                {
                    if self.data[i].len() > best {
                        best = self.data[i].len();
                    }
                    i = i + 1;
                }
                best
            },
        };
        proof {
            assert(nshown == shown_count(t));
            assert(ncols == col_count(t));
        }
        // the shown rows, each exactly `ncols` cells
        let mut rows_data: Vec<Vec<String>> = Vec::new();
        let mut i: usize = 0;
        while i < nshown
            invariant
                i <= nshown,
                t == *self,
                nshown == shown_count(t),
                nshown <= t.data@.len(),
                rows_data@.len() == i,
                forall|k: int| 0 <= k < i ==> (#[trigger] rows_data@[k])@.len() == ncols,
                forall|k: int, jj: int|
                    0 <= k < i && 0 <= jj < ncols ==> (#[trigger] rows_data@[k]@[jj])@
                        == source_cell(t, k, jj),
            decreases nshown - i,
        {
            let src = &self.data[i];
            let mut row: Vec<String> = Vec::new();
            let mut j: usize = 0;
            while j < ncols
                invariant
                    j <= ncols,
                    t == *self,
                    row@.len() == j,
                    i < t.data@.len(),
                    src == &t.data@[i as int],
                    forall|jj: int|
                        0 <= jj < j ==> (#[trigger] row@[jj])@ == source_cell(t, i as int, jj),
                decreases ncols - j,
            {
                if j < src.len() {
                    row.push(src[j].clone());
                } else {
                    row.push(String::new());
                }
                j = j + 1;
            }
            rows_data.push(row);
            i = i + 1;
        }
        let ghost rows_view = rows_data@;
        let mut records = Records::from_rows(rows_data);
        proof {
            assert(records.row_count_spec() == nshown);
            if nshown > 0 {
                assert(rows_view[0]@.len() == ncols);
                assert(rows_view[0]@.len() <= records.col_count_spec());
                if records.col_count_spec() != 0 {
                    let w = choose|k: int|
                        0 <= k < rows_view.len() && (#[trigger] rows_view[k])@.len()
                            == records.col_count_spec();
                    assert(rows_view[w]@.len() == ncols);
                }
                assert(records.col_count_spec() == ncols);
            }
        }
        if records.count_rows() == 0 || records.count_columns() == 0 {
            return String::new();
        }
        let nrows_rec = records.count_rows();
        let ncols_rec = records.count_columns();
        proof {
            assert(nrows_rec == shown_count(t) && ncols_rec == col_count(t));
            assert forall|ii: int, jj: int|
                0 <= ii < nrows_rec && 0 <= jj < ncols_rec implies #[trigger] records.grid(
            )[ii][jj] == source_cell(t, ii, jj) by {
                assert(records.grid()[ii][jj] == rows_view[ii]@[jj]@);
            }
        }
        // per-column content widths
        let pad = self.cfg.get_padding(0, 0);
        let pad_total = usat_add(pad.left.size, pad.right.size);
        let mut content_widths: Vec<usize> = Vec::new();
        match self.width {
            Some(w) => {
                let cw = usat_sub(w, pad_total);
                let mut c: usize = 0;
                while c < ncols_rec
                    invariant
                        c <= ncols_rec,
                        t == *self,
                        t.width is Some,
                        content_widths@.len() == c,
                        cw == ssub(match t.width {
                            Some(w0) => w0,
                            None => 0,
                        }, pad_total_spec(t)),
                        forall|cc: int|
                            0 <= cc < c ==> #[trigger] content_widths@[cc] == content_width_of(
                                t,
                                cc,
                            ),
                    decreases ncols_rec - c,
                {
                    content_widths.push(cw);
                    c = c + 1;
                }
            },
            None => {
                let mut c: usize = 0;
                while c < ncols_rec
                    invariant
                        c <= ncols_rec,
                        t == *self,
                        t.width is None,
                        content_widths@.len() == c,
                        records.wf(),
                        nrows_rec == records.row_count_spec(),
                        ncols_rec == records.col_count_spec(),
                        nsniff == sniff_count(t),
                        nsniff <= nrows_rec,
                        forall|ii: int, jj: int|
                            0 <= ii < nrows_rec && 0 <= jj < ncols_rec ==> #[trigger] records.grid(
                            )[ii][jj] == source_cell(t, ii, jj),
                        forall|cc: int|
                            0 <= cc < c ==> #[trigger] content_widths@[cc] == content_width_of(
                                t,
                                cc,
                            ),
                    decreases ncols_rec - c,
                {
                    let mut best: usize = 0;
                    let mut rix: usize = 0;
                    while rix < nsniff
                        invariant
                            rix <= nsniff,
                            t == *self,
                            nsniff <= nrows_rec,
                            c < ncols_rec,
                            records.wf(),
                            nrows_rec == records.row_count_spec(),
                            ncols_rec == records.col_count_spec(),
                            forall|ii: int, jj: int|
                                0 <= ii < nrows_rec && 0 <= jj < ncols_rec
                                    ==> #[trigger] records.grid()[ii][jj] == source_cell(
                                    t,
                                    ii,
                                    jj,
                                ),
                            best == measured_width(t, c as int, rix as int),
                        decreases nsniff - rix,
                    {
                        let fmt = self.cfg.get_formatting(rix, c);
                        let ls = cell_lines(records.get(rix, c), fmt, self.cfg.get_tab_width());
                        let w = content_width(&ls);
                        if w > best {
                            best = w;
                        }
                        rix = rix + 1;
                    }
                    content_widths.push(best);
                    c = c + 1;
                }
            },
        }
        // cut every cell to its column's content width
        let mut c: usize = 0;
        while c < ncols_rec
            invariant
                c <= ncols_rec,
                t == *self,
                content_widths@.len() == ncols_rec,
                forall|cc: int|
                    0 <= cc < ncols_rec ==> #[trigger] content_widths@[cc] == content_width_of(
                        t,
                        cc,
                    ),
                records.wf(),
                nrows_rec == records.row_count_spec(),
                ncols_rec == records.col_count_spec(),
                forall|ii: int, jj: int|
                    0 <= ii < nrows_rec && 0 <= jj < ncols_rec ==> #[trigger] records.grid(
                    )[ii][jj] == if jj < c {
                        shown_cell(t, ii, jj)
                    } else {
                        source_cell(t, ii, jj)
                    },
            decreases ncols_rec - c,
        {
            let ghost g0 = records.grid();
            let cut = Truncate::new(content_widths[c]);
            cut.change(&mut records, &self.cfg, Entity::Column(c));
            proof {
                assert forall|ii: int, jj: int|
                    0 <= ii < nrows_rec && 0 <= jj < ncols_rec implies #[trigger] records.grid(
                )[ii][jj] == (if jj < c + 1 {
                    shown_cell(t, ii, jj)
                } else {
                    source_cell(t, ii, jj)
                }) by {
                    if jj == c {
                        assert(g0[ii][jj] == source_cell(t, ii, jj));
                    } else {
                        assert(records.grid()[ii][jj] == g0[ii][jj]);
                    }
                }
            }
            c = c + 1;
        }
        // box widths and row heights
        let mut widths: Vec<usize> = Vec::new();
        let mut c: usize = 0;
        proof {
            assert(widths@ =~= box_widths(t, 0));
        }
        while c < ncols_rec
            invariant
                c <= ncols_rec,
                t == *self,
                widths@ == box_widths(t, c as int),
                widths@.len() == c,
                content_widths@.len() == ncols_rec,
                pad_total == pad_total_spec(t),
                forall|cc: int|
                    0 <= cc < ncols_rec ==> #[trigger] content_widths@[cc] == content_width_of(
                        t,
                        cc,
                    ),
            decreases ncols_rec - c,
        {
            widths.push(usat_add(content_widths[c], pad_total));
            c = c + 1;
        }
        let mut heights: Vec<usize> = Vec::new();
        let mut rix: usize = 0;
        proof {
            assert(heights@ =~= row_heights(t, 0));
        }
        while rix < nrows_rec
            invariant
                rix <= nrows_rec,
                t == *self,
                heights@ == row_heights(t, rix as int),
                heights@.len() == rix,
            decreases nrows_rec - rix,
        {
            heights.push(self.height);
            rix = rix + 1;
        }
        let out = render_grid(&records, &self.cfg, &widths, &heights);
        proof {
            let ghost w_recs = records;
            assert(w_recs.wf());
            assert(w_recs.row_count_spec() == shown_count(t));
            assert(w_recs.col_count_spec() == col_count(t));
            assert(out@ == render_spec(
                w_recs,
                t.cfg,
                box_widths(t, col_count(t)),
                row_heights(t, shown_count(t)),
            ));
        }
        out
    }
}

} // verus!
