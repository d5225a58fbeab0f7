//! A table: a record grid together with its configuration, rendered in one
//! call.

use vstd::prelude::*;

use crate::config::GridConfig;
use crate::estimate::estimate_heights;
use crate::estimate::estimate_widths;
use crate::estimate::heights_spec;
use crate::estimate::widths_spec;
use crate::records::Records;
use crate::render::render_grid;
use crate::render::render_spec;

verus! {

/// A record grid with the configuration it is rendered under.
pub struct Table {
    /// The cell grid.
    pub records: Records,
    /// The configuration the grid is rendered with.
    pub cfg: GridConfig,
}

/// The text a table renders to: the grid laid out under its own estimated
/// dimensions.
pub open spec fn table_render_spec(recs: Records, cfg: GridConfig) -> Seq<char> {
    render_spec(recs, cfg, widths_spec(recs, cfg), heights_spec(recs, cfg))
}

impl Table {
    /// A table over the given records with the default configuration.
    pub fn new(records: Records) -> (r: Table)
        ensures
            r.records == records,
            crate::config::is_default_cfg(r.cfg),
    {
        let cfg = GridConfig::new();
        Table { records, cfg }
    }

    /// Renders the table: estimates the column widths and row heights,
    /// then lays the grid out.  The output is a function of the records
    /// and the configuration alone, so rendering twice yields the same
    /// text; a grid with no rows or no columns renders to the empty
    /// string.
    pub fn render(&self) -> (r: String)
        requires
            self.records.wf(),
        ensures
            r@ == table_render_spec(self.records, self.cfg),
            self.records.row_count_spec() == 0 || self.records.col_count_spec() == 0 ==> r@
                == Seq::<char>::empty(),
    {
        let widths = estimate_widths(&self.records, &self.cfg);
        let heights = estimate_heights(&self.records, &self.cfg);
        render_grid(&self.records, &self.cfg, &widths, &heights)
    }
}

/// Anything that can turn itself into a [`Table`].
pub trait TableIteratorExt {
    /// The source seen as rows of cell texts.
    spec fn rows_spec(self) -> Seq<Seq<Seq<char>>>;

    /// Builds a table over the data with the default configuration.  The
    /// table holds exactly the source rows: the column count is the
    /// longest row's length, and a short row is padded with empty cells.
    fn table(self) -> (r: Table)
        ensures
            r.records.wf(),
            crate::config::is_default_cfg(r.cfg),
            r.records.row_count_spec() == self.rows_spec().len(),
            forall|i: int|
                0 <= i < self.rows_spec().len() ==> (#[trigger] self.rows_spec()[i]).len()
                    <= r.records.col_count_spec(),
            (exists|i: int|
                0 <= i < self.rows_spec().len() && (#[trigger] self.rows_spec()[i]).len()
                    == r.records.col_count_spec()) || r.records.col_count_spec() == 0,
            forall|i: int, j: int|
                0 <= i < self.rows_spec().len() && 0 <= j < r.records.col_count_spec()
                    ==> #[trigger] r.records.grid()[i][j] == if j < self.rows_spec()[i].len() {
                    self.rows_spec()[i][j]
                } else {
                    Seq::<char>::empty()
                },
    ;
}

impl TableIteratorExt for Vec<Vec<String>> {
    /// The vectors as rows of cell texts.
    open spec fn rows_spec(self) -> Seq<Seq<Seq<char>>> {
        Seq::new(
            self@.len(),
            |i: int| Seq::new(self@[i]@.len(), |j: int| self@[i]@[j]@),
        )
    }

    /// A table whose rows are the vectors, padded to the longest row.
    fn table(self) -> (r: Table)
    {
        let ghost rows0 = self;
        let r = Table::new(Records::from_rows(self));
        proof {
            assert forall|i: int|
                0 <= i < rows0.rows_spec().len() implies (#[trigger] rows0.rows_spec()[i]).len()
                <= r.records.col_count_spec() by {
                assert(rows0.rows_spec()[i].len() == rows0@[i]@.len());
            }
            if r.records.col_count_spec() != 0 {
                let w = choose|i: int|
                    0 <= i < rows0@.len() && (#[trigger] rows0@[i])@.len()
                        == r.records.col_count_spec();
                assert(rows0.rows_spec()[w].len() == r.records.col_count_spec());
            }
            assert forall|i: int, j: int|
                0 <= i < rows0.rows_spec().len() && 0 <= j < r.records.col_count_spec() implies
            #[trigger] r.records.grid()[i][j] == (if j < rows0.rows_spec()[i].len() {
                rows0.rows_spec()[i][j]
            } else {
                Seq::<char>::empty()
            }) by {
                assert(rows0.rows_spec()[i].len() == rows0@[i]@.len());
                if j < rows0@[i]@.len() {
                    assert(rows0.rows_spec()[i][j] == rows0@[i]@[j]@);
                }
            }
        }
        r
    }
}

} // verus!
