//! Panels: a spread row of text inserted into the grid, spanning every
//! column.

use vstd::prelude::*;

use crate::config::GridConfig;
use crate::entity::rows_shifted_spec;
use crate::entity::shift_cell_entries_down;
use crate::entity::shift_cell_rows;
use crate::records::Records;

verus! {

/// Opens a gap at row `row`: every row from it on moves down one and an
/// empty row takes its place.
pub fn move_rows_aside(records: &mut Records, row: usize)
    requires
        old(records).wf(),
        row <= old(records).row_count_spec(),
    ensures
        final(records).wf(),
        final(records).row_count_spec() == old(records).row_count_spec() + 1,
        final(records).col_count_spec() == old(records).col_count_spec(),
        final(records).grid() =~~= old(records).grid().subrange(0, row as int) + seq![
            Seq::new(old(records).col_count_spec(), |i: int| Seq::<char>::empty()),
        ] + old(records).grid().subrange(row as int, old(records).row_count_spec() as int),
{
    let n = records.count_rows();
    proof {
        old(records).lemma_grid_shape();
    }
    records.push_row();
    let ghost g = old(records).grid();
    let ghost emptyrow = Seq::new(
        old(records).col_count_spec(),
        |i: int| Seq::<char>::empty(),
    );
    proof {
        assert(records.grid() =~~= g.subrange(0, n as int) + seq![emptyrow] + g.subrange(
            n as int,
            n as int,
        ));
    }
    let count = records.count_rows();
    let shift_count = count - row;
    let mut i: usize = 1;
    while i < shift_count
        invariant
            1 <= i <= shift_count,
            shift_count == count - row,
            count == n + 1,
            row <= n,
            old(records).wf(),
            n == old(records).row_count_spec(),
            records.wf(),
            records.row_count_spec() == n + 1,
            records.col_count_spec() == old(records).col_count_spec(),
            g == old(records).grid(),
            emptyrow == Seq::new(old(records).col_count_spec(), |k: int| Seq::<char>::empty()),
            records.grid() =~~= g.subrange(0, n + 1 - i) + seq![emptyrow] + g.subrange(
                n + 1 - i,
                n as int,
            ),
        decreases shift_count - i,
    {
        let rr = count - i;
        let ghost before = records.grid();
        proof {
            old(records).lemma_grid_shape();
            records.lemma_grid_shape();
        }
        records.swap_row(rr, rr - 1);
        proof {
            old(records).lemma_grid_shape();
            assert(records.grid() =~~= g.subrange(0, n - i) + seq![emptyrow] + g.subrange(
                n - i,
                n as int,
            ));
        }
        i = i + 1;
    }
}

/// Moves the span entries of the rows from `target` on down one row, so
/// they follow their rows through [`move_rows_aside`].
pub fn move_row_spans(cfg: &mut GridConfig, target: usize)
    ensures
        final(cfg).span_columns@ == shift_cell_rows(old(cfg).span_columns@, target),
        final(cfg).span_rows@ == shift_cell_rows(old(cfg).span_rows@, target),
        final(cfg).tab_width == old(cfg).tab_width,
        final(cfg).margin == old(cfg).margin,
        final(cfg).borders == old(cfg).borders,
        final(cfg).padding == old(cfg).padding,
        final(cfg).alignment_h == old(cfg).alignment_h,
        final(cfg).alignment_v == old(cfg).alignment_v,
        final(cfg).formatting == old(cfg).formatting,
        final(cfg).text_color == old(cfg).text_color,
        final(cfg).border_chars == old(cfg).border_chars,
        final(cfg).border_colors == old(cfg).border_colors,
{
    shift_cell_entries_down(&mut cfg.span_columns, target);
    shift_cell_entries_down(&mut cfg.span_rows, target);
}

/// Moves every other per-row and per-cell setting of the rows from
/// `target` on down one row — padding, alignment, formatting, text color,
/// border glyphs and border colors — so a cell keeps its look when a
/// panel pushes it down.
pub fn move_row_settings(cfg: &mut GridConfig, target: usize)
    ensures
        rows_shifted_spec(old(cfg).padding, final(cfg).padding, target),
        rows_shifted_spec(old(cfg).alignment_h, final(cfg).alignment_h, target),
        rows_shifted_spec(old(cfg).alignment_v, final(cfg).alignment_v, target),
        rows_shifted_spec(old(cfg).formatting, final(cfg).formatting, target),
        rows_shifted_spec(old(cfg).text_color, final(cfg).text_color, target),
        final(cfg).border_chars@ == shift_cell_rows(old(cfg).border_chars@, target),
        final(cfg).border_colors@ == shift_cell_rows(old(cfg).border_colors@, target),
        final(cfg).tab_width == old(cfg).tab_width,
        final(cfg).margin == old(cfg).margin,
        final(cfg).borders == old(cfg).borders,
        final(cfg).span_columns == old(cfg).span_columns,
        final(cfg).span_rows == old(cfg).span_rows,
{
    cfg.padding.shift_rows_down(target);
    cfg.alignment_h.shift_rows_down(target);
    cfg.alignment_v.shift_rows_down(target);
    cfg.formatting.shift_rows_down(target);
    cfg.text_color.shift_rows_down(target);
    shift_cell_entries_down(&mut cfg.border_chars, target);
    shift_cell_entries_down(&mut cfg.border_colors, target);
}

/// What inserting a panel row does: below the limit nothing changes; else
/// the grid gains an empty row at `pos` whose first cell holds the text,
/// existing spans move with their rows, and a column span over the whole
/// width is stored at the new row's first cell.
pub open spec fn panel_applied(
    pre_r: Records,
    pre_c: GridConfig,
    post_r: Records,
    post_c: GridConfig,
    text: Seq<char>,
    pos: usize,
) -> bool {
    if pos > pre_r.row_count_spec() {
        post_r == pre_r && post_c == pre_c
    } else {
        let inserted = pre_r.grid().subrange(0, pos as int) + seq![
            Seq::new(pre_r.col_count_spec(), |i: int| Seq::<char>::empty()),
        ] + pre_r.grid().subrange(pos as int, pre_r.row_count_spec() as int);
        &&& post_r.wf()
        &&& post_r.row_count_spec() == pre_r.row_count_spec() + 1
        &&& post_r.col_count_spec() == pre_r.col_count_spec()
        &&& post_r.grid() == (if pre_r.col_count_spec() > 0 {
            inserted.update(pos as int, inserted[pos as int].update(0, text))
        } else {
            inserted
        })
        &&& post_c.span_columns@ == shift_cell_rows(pre_c.span_columns@, pos).push(
            (pos, 0usize, post_r.col_count_spec() as usize),
        )
        &&& post_c.span_rows@ == shift_cell_rows(pre_c.span_rows@, pos)
        &&& post_c.tab_width == pre_c.tab_width
        &&& post_c.margin == pre_c.margin
        &&& post_c.borders == pre_c.borders
        &&& rows_shifted_spec(pre_c.padding, post_c.padding, pos)
        &&& rows_shifted_spec(pre_c.alignment_h, post_c.alignment_h, pos)
        &&& rows_shifted_spec(pre_c.alignment_v, post_c.alignment_v, pos)
        &&& rows_shifted_spec(pre_c.formatting, post_c.formatting, pos)
        &&& rows_shifted_spec(pre_c.text_color, post_c.text_color, pos)
        &&& post_c.border_chars@ == shift_cell_rows(pre_c.border_chars@, pos)
        &&& post_c.border_colors@ == shift_cell_rows(pre_c.border_colors@, pos)
    }
}

/// Inserts the panel row at `pos`; a position past the grid is ignored.
fn insert_panel_row(records: &mut Records, cfg: &mut GridConfig, pos: usize, text: &String)
    requires
        old(records).wf(),
    ensures
        panel_applied(*old(records), *old(cfg), *final(records), *final(cfg), text@, pos),
{
    let nrows = records.count_rows();
    let ncols = records.count_columns();
    if pos > nrows {
        return ;
    }
    move_rows_aside(records, pos);
    move_row_spans(cfg, pos);
    move_row_settings(cfg, pos);
    if ncols > 0 {
        records.set_text(pos, 0, text.clone());
    }
    cfg.set_column_span(pos, 0, ncols);
    proof {
        let pre_r = *old(records);
        let inserted = pre_r.grid().subrange(0, pos as int) + seq![
            Seq::new(pre_r.col_count_spec(), |i: int| Seq::<char>::empty()),
        ] + pre_r.grid().subrange(pos as int, pre_r.row_count_spec() as int);
        if ncols > 0 {
            assert(records.grid() =~~= inserted.update(
                pos as int,
                inserted[pos as int].update(0, text@),
            ));
        } else {
            assert(records.grid() =~~= inserted);
        }
    }
}

/// A spread row: one cell of text over the whole width, inserted at a
/// chosen row.
#[derive(Clone, Debug)]
pub struct Panel(pub String, pub usize);

impl Panel {
    /// Inserts the panel into the grid; a position past the grid is
    /// ignored.
    pub fn change(&self, records: &mut Records, cfg: &mut GridConfig)
        requires
            old(records).wf(),
        ensures
            panel_applied(
                *old(records),
                *old(cfg),
                *final(records),
                *final(cfg),
                self.0@,
                self.1,
            ),
    {
        insert_panel_row(records, cfg, self.1, &self.0);
    }
}

/// A panel at the very top of the grid.
#[derive(Clone, Debug)]
pub struct Header(pub String);

impl Header {
    /// Inserts the header row above everything.
    pub fn change(&self, records: &mut Records, cfg: &mut GridConfig)
        requires
            old(records).wf(),
        ensures
            panel_applied(*old(records), *old(cfg), *final(records), *final(cfg), self.0@, 0),
    {
        insert_panel_row(records, cfg, 0, &self.0);
    }
}

/// A panel after the last row of the grid.
#[derive(Clone, Debug)]
pub struct Footer(pub String);

impl Footer {
    /// Inserts the footer row below everything.
    pub fn change(&self, records: &mut Records, cfg: &mut GridConfig)
        requires
            old(records).wf(),
        ensures
            panel_applied(
                *old(records),
                *old(cfg),
                *final(records),
                *final(cfg),
                self.0@,
                old(records).row_count_spec() as usize,
            ),
    {
        let pos = records.count_rows();
        insert_panel_row(records, cfg, pos, &self.0);
    }
}

/// A spread row, built from a row index and its text.
#[derive(Clone, Debug)]
pub struct HorizontalPanel {
    text: String,
    row: usize,
}

impl HorizontalPanel {
    /// A panel with `text` at row `row`.
    pub fn new(row: usize, text: String) -> (r: HorizontalPanel)
        ensures
            r.text_spec() == text@,
            r.row_spec() == row,
    {
        HorizontalPanel { row, text }
    }

    /// The text of the panel.
    pub closed spec fn text_spec(self) -> Seq<char> {
        self.text@
    }

    /// The row the panel is inserted at.
    pub closed spec fn row_spec(self) -> usize {
        self.row
    }

    /// Inserts the panel into the grid; a row past the grid is ignored.
    pub fn change(&self, records: &mut Records, cfg: &mut GridConfig)
        requires
            old(records).wf(),
        ensures
            panel_applied(
                *old(records),
                *old(cfg),
                *final(records),
                *final(cfg),
                self.text_spec(),
                self.row_spec(),
            ),
    {
        insert_panel_row(records, cfg, self.row, &self.text);
    }
}

} // verus!
