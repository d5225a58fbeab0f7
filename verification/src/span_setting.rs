//! The span setting: one cell claiming several columns or rows.

use vstd::prelude::*;

use crate::config::GridConfig;
use crate::entity::Entity;
use crate::records::Records;

verus! {

/// A column or row span for the cells an entity covers.  A span wider
/// than the grid is clamped when the grid is laid out, and a span of one
/// or less clears an earlier span.
#[derive(Clone, Copy, Debug)]
pub struct Span(pub SpanType);

#[derive(Clone, Copy, Debug)]
pub enum SpanType {
    Column(usize),
    Row(usize),
}

impl Span {
    /// A span over `size` columns.
    pub fn column(size: usize) -> (r: Span)
        ensures
            r.is_column_spec(size),
    {
        Span(SpanType::Column(size))
    }

    /// A span over `size` rows.
    pub fn row(size: usize) -> (r: Span)
        ensures
            r.is_row_spec(size),
    {
        Span(SpanType::Row(size))
    }

    /// Whether this is a column span of the given size.
    pub open spec fn is_column_spec(self, size: usize) -> bool {
        self.0 == SpanType::Column(size)
    }

    /// Whether this is a row span of the given size.
    pub open spec fn is_row_spec(self, size: usize) -> bool {
        self.0 == SpanType::Row(size)
    }

    /// Stores the span at every cell the entity covers.
    #[verifier::rlimit(50)]
    pub fn change(&self, records: &Records, cfg: &mut GridConfig, entity: Entity)
        ensures
            forall|r: int, c: int|
                0 <= r < records.row_count_spec() && 0 <= c < records.col_count_spec()
                    ==> #[trigger] final(cfg).span_column_spec(r, c) == if entity.contains_spec(
                    r,
                    c,
                ) {
                    match self.0 {
                        SpanType::Column(s) => if s > 1 {
                            Some(s as nat)
                        } else {
                            None
                        },
                        SpanType::Row(_) => old(cfg).span_column_spec(r, c),
                    }
                } else {
                    old(cfg).span_column_spec(r, c)
                },
            forall|r: int, c: int|
                0 <= r < records.row_count_spec() && 0 <= c < records.col_count_spec()
                    ==> #[trigger] final(cfg).span_row_spec(r, c) == if entity.contains_spec(
                    r,
                    c,
                ) {
                    match self.0 {
                        SpanType::Row(s) => if s > 1 {
                            Some(s as nat)
                        } else {
                            None
                        },
                        SpanType::Column(_) => old(cfg).span_row_spec(r, c),
                    }
                } else {
                    old(cfg).span_row_spec(r, c)
                },
            final(cfg).tab_width == old(cfg).tab_width,
            final(cfg).margin == old(cfg).margin,
            final(cfg).borders == old(cfg).borders,
            final(cfg).padding == old(cfg).padding,
            final(cfg).alignment_h == old(cfg).alignment_h,
            final(cfg).alignment_v == old(cfg).alignment_v,
            final(cfg).formatting == old(cfg).formatting,
            final(cfg).text_color == old(cfg).text_color,
            final(cfg).border_chars == old(cfg).border_chars,
            final(cfg).border_colors == old(cfg).border_colors,
    {
        let nrows = records.count_rows();
        let ncols = records.count_columns();
        let mut r: usize = 0;
        while r < nrows
            invariant
                r <= nrows,
                nrows == records.row_count_spec(),
                ncols == records.col_count_spec(),
                cfg.tab_width == old(cfg).tab_width,
                cfg.margin == old(cfg).margin,
                cfg.borders == old(cfg).borders,
                cfg.padding == old(cfg).padding,
                cfg.alignment_h == old(cfg).alignment_h,
                cfg.alignment_v == old(cfg).alignment_v,
                cfg.formatting == old(cfg).formatting,
                cfg.text_color == old(cfg).text_color,
                cfg.border_chars == old(cfg).border_chars,
                cfg.border_colors == old(cfg).border_colors,
                forall|rr: int, cc: int|
                    0 <= rr < nrows && 0 <= cc < ncols ==> #[trigger] cfg.span_column_spec(rr, cc)
                        == if rr < r && entity.contains_spec(rr, cc) {
                        match self.0 {
                            SpanType::Column(s) => if s > 1 {
                                Some(s as nat)
                            } else {
                                None
                            },
                            SpanType::Row(_) => old(cfg).span_column_spec(rr, cc),
                        }
                    } else {
                        old(cfg).span_column_spec(rr, cc)
                    },
                forall|rr: int, cc: int|
                    0 <= rr < nrows && 0 <= cc < ncols ==> #[trigger] cfg.span_row_spec(rr, cc)
                        == if rr < r && entity.contains_spec(rr, cc) {
                        match self.0 {
                            SpanType::Row(s) => if s > 1 {
                                Some(s as nat)
                            } else {
                                None
                            },
                            SpanType::Column(_) => old(cfg).span_row_spec(rr, cc),
                        }
                    } else {
                        old(cfg).span_row_spec(rr, cc)
                    },
            decreases nrows - r,
        {
            let mut c: usize = 0;
            while c < ncols
                invariant
                    c <= ncols,
                    r < nrows,
                    nrows == records.row_count_spec(),
                    ncols == records.col_count_spec(),
                    cfg.tab_width == old(cfg).tab_width,
                    cfg.margin == old(cfg).margin,
                    cfg.borders == old(cfg).borders,
                    cfg.padding == old(cfg).padding,
                    cfg.alignment_h == old(cfg).alignment_h,
                    cfg.alignment_v == old(cfg).alignment_v,
                    cfg.formatting == old(cfg).formatting,
                    cfg.text_color == old(cfg).text_color,
                    cfg.border_chars == old(cfg).border_chars,
                    cfg.border_colors == old(cfg).border_colors,
                    forall|rr: int, cc: int|
                        0 <= rr < nrows && 0 <= cc < ncols ==> #[trigger] cfg.span_column_spec(
                            rr,
                            cc,
                        ) == if (rr < r || (rr == r && cc < c)) && entity.contains_spec(rr, cc) {
                            match self.0 {
                                SpanType::Column(s) => if s > 1 {
                                    Some(s as nat)
                                } else {
                                    None
                                },
                                SpanType::Row(_) => old(cfg).span_column_spec(rr, cc),
                            }
                        } else {
                            old(cfg).span_column_spec(rr, cc)
                        },
                    forall|rr: int, cc: int|
                        0 <= rr < nrows && 0 <= cc < ncols ==> #[trigger] cfg.span_row_spec(rr, cc)
                            == if (rr < r || (rr == r && cc < c)) && entity.contains_spec(rr, cc) {
                            match self.0 {
                                SpanType::Row(s) => if s > 1 {
                                    Some(s as nat)
                                } else {
                                    None
                                },
                                SpanType::Column(_) => old(cfg).span_row_spec(rr, cc),
                            }
                        } else {
                            old(cfg).span_row_spec(rr, cc)
                        },
                decreases ncols - c,
            {
                if entity.contains(r, c) {
                    let ghost pre = *cfg;
                    set_span(cfg, r, c, self.0);
                    proof {
                        match self.0 {
                            SpanType::Column(s) => {
                                assert(cfg.span_columns@.last() == (r, c, s));
                                assert(crate::entity::find_cell_keyed(
                                    cfg.span_columns@,
                                    r as int,
                                    c as int,
                                ) == Some(s));
                            },
                            SpanType::Row(s) => {
                                assert(cfg.span_rows@.last() == (r, c, s));
                                assert(crate::entity::find_cell_keyed(
                                    cfg.span_rows@,
                                    r as int,
                                    c as int,
                                ) == Some(s));
                            },
                        }
                        assert forall|rr: int, cc: int|
                            0 <= rr < nrows && 0 <= cc < ncols && !(rr == r && cc == c) implies
                        #[trigger] cfg.span_column_spec(rr, cc) == pre.span_column_spec(rr, cc) by {
                            match self.0 {
                                SpanType::Column(_) => {
                                    assert(cfg.span_columns@.drop_last() =~= pre.span_columns@);
                                    assert(crate::entity::find_cell_keyed(
                                        cfg.span_columns@,
                                        rr,
                                        cc,
                                    ) == crate::entity::find_cell_keyed(
                                        pre.span_columns@,
                                        rr,
                                        cc,
                                    ));
                                },
                                SpanType::Row(_) => {
                                    assert(cfg.span_columns@ == pre.span_columns@);
                                },
                            }
                        }
                        assert forall|rr: int, cc: int|
                            0 <= rr < nrows && 0 <= cc < ncols && !(rr == r && cc == c) implies
                        #[trigger] cfg.span_row_spec(rr, cc) == pre.span_row_spec(rr, cc) by {
                            match self.0 {
                                SpanType::Row(_) => {
                                    assert(cfg.span_rows@.drop_last() =~= pre.span_rows@);
                                    assert(crate::entity::find_cell_keyed(cfg.span_rows@, rr, cc)
                                        == crate::entity::find_cell_keyed(pre.span_rows@, rr, cc));
                                },
                                SpanType::Column(_) => {
                                    assert(cfg.span_rows@ == pre.span_rows@);
                                },
                            }
                        }
                        assert(pre.span_column_spec(r as int, c as int) == old(
                            cfg,
                        ).span_column_spec(r as int, c as int));
                        assert(pre.span_row_spec(r as int, c as int) == old(cfg).span_row_spec(
                            r as int,
                            c as int,
                        ));
                        match self.0 {
                            SpanType::Column(s) => {
                                assert(cfg.span_rows@ == pre.span_rows@);
                                assert(cfg.span_row_spec(r as int, c as int)
                                    == pre.span_row_spec(r as int, c as int));
                                assert(cfg.span_column_spec(r as int, c as int) == (if s > 1 {
                                    Some(s as nat)
                                } else {
                                    None
                                }));
                            },
                            SpanType::Row(s) => {
                                assert(cfg.span_columns@ == pre.span_columns@);
                                assert(cfg.span_column_spec(r as int, c as int)
                                    == pre.span_column_spec(r as int, c as int));
                                assert(cfg.span_row_spec(r as int, c as int) == (if s > 1 {
                                    Some(s as nat)
                                } else {
                                    None
                                }));
                            },
                        }
                        assert forall|rr: int, cc: int|
                            0 <= rr < nrows && 0 <= cc < ncols implies #[trigger] cfg.span_row_spec(
                            rr,
                            cc,
                        ) == (if (rr < r || (rr == r && cc < c + 1)) && entity.contains_spec(
                            rr,
                            cc,
                        ) {
                            match self.0 {
                                SpanType::Row(s) => if s > 1 {
                                    Some(s as nat)
                                } else {
                                    None
                                },
                                SpanType::Column(_) => old(cfg).span_row_spec(rr, cc),
                            }
                        } else {
                            old(cfg).span_row_spec(rr, cc)
                        }) by {
                            if !(rr == r && cc == c) {
                                assert(cfg.span_row_spec(rr, cc) == pre.span_row_spec(rr, cc));
                            }
                        }
                        assert forall|rr: int, cc: int|
                            0 <= rr < nrows && 0 <= cc < ncols implies
                        #[trigger] cfg.span_column_spec(rr, cc) == (if (rr < r || (rr == r && cc < c
                            + 1)) && entity.contains_spec(rr, cc) {
                            match self.0 {
                                SpanType::Column(s) => if s > 1 {
                                    Some(s as nat)
                                } else {
                                    None
                                },
                                SpanType::Row(_) => old(cfg).span_column_spec(rr, cc),
                            }
                        } else {
                            old(cfg).span_column_spec(rr, cc)
                        }) by {
                            if !(rr == r && cc == c) {
                                assert(cfg.span_column_spec(rr, cc) == pre.span_column_spec(
                                    rr,
                                    cc,
                                ));
                            }
                        }
                    }
                }
                c = c + 1;
            }
            r = r + 1;
        }
    }
}

/// Stores one span entry at `(row, col)`.
pub fn set_span(cfg: &mut GridConfig, row: usize, col: usize, span: SpanType)
    ensures
        match span {
            SpanType::Column(s) => final(cfg).span_columns@ == old(cfg).span_columns@.push(
                (row, col, s),
            ) && final(cfg).span_rows == old(cfg).span_rows,
            SpanType::Row(s) => final(cfg).span_rows@ == old(cfg).span_rows@.push((row, col, s))
                && final(cfg).span_columns == old(cfg).span_columns,
        },
        final(cfg).tab_width == old(cfg).tab_width,
        final(cfg).margin == old(cfg).margin,
        final(cfg).borders == old(cfg).borders,
        final(cfg).padding == old(cfg).padding,
        final(cfg).alignment_h == old(cfg).alignment_h,
        final(cfg).alignment_v == old(cfg).alignment_v,
        final(cfg).formatting == old(cfg).formatting,
        final(cfg).text_color == old(cfg).text_color,
        final(cfg).border_chars == old(cfg).border_chars,
        final(cfg).border_colors == old(cfg).border_colors,
{
    match span {
        SpanType::Column(size) => {
            cfg.set_column_span(row, col, size);
        },
        SpanType::Row(size) => {
            cfg.set_row_span(row, col, size);
        },
    }
}

} // verus!
