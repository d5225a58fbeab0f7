//! The laws the renderer and the width adjuster keep, stated once over the
//! rendering specifications and proved for every input.

use vstd::prelude::*;

use crate::config::Border;
use crate::config::GridConfig;
use crate::entity::find_cell_keyed;
use crate::entity::find_keyed;
use crate::estimate::block_width_sum;
use crate::estimate::col_span_end;
use crate::records::Records;
use crate::render::block_line_spec;
use crate::render::content_boundary_part;
use crate::render::content_column_part;
use crate::render::content_line_spec;
use crate::render::content_line_upto;
use crate::render::grid_lines_from;
use crate::render::lemma_pad_to_len;
use crate::render::render_spec;
use crate::render::row_content_lines;
use crate::render::sep_boundary_part;
use crate::render::sep_column_part;
use crate::render::sep_line_spec;
use crate::render::sep_line_upto;
use crate::render::table_lines_spec;
use crate::text::lemma_char_fill_len;
use crate::truncate::decrease_spec;
use crate::truncate::lemma_decrease_sum;
use crate::truncate::plain_sum;
use crate::truncate::slack_sum;
use crate::truncate::Priority;

verus! {

/// A configuration with no colors configured anywhere: what it renders is
/// plain text, so a line's length is its visual width.
pub open spec fn plain_cfg(cfg: GridConfig) -> bool {
    &&& cfg.text_color.global is None
    &&& cfg.text_color.rows@.len() == 0
    &&& cfg.text_color.columns@.len() == 0
    &&& cfg.text_color.cells@.len() == 0
    &&& cfg.border_colors@.len() == 0
}

proof fn lemma_plain_text_color(cfg: GridConfig, r: int, c: int)
    requires
        plain_cfg(cfg),
    ensures
        cfg.text_color_spec(r, c) is None,
{
    assert(find_cell_keyed(cfg.text_color.cells@, r, c) is None);
    assert(find_keyed(cfg.text_color.rows@, r) is None);
    assert(find_keyed(cfg.text_color.columns@, c) is None);
}

proof fn lemma_plain_border_colors(cfg: GridConfig, r: int, c: int)
    requires
        plain_cfg(cfg),
    ensures
        cfg.cell_border_color_spec(r, c) == Border::<crate::config::ColorPair>::empty_spec(),
{
    assert(find_cell_keyed(cfg.border_colors@, r, c) is None);
}

/// The number of vertical grid lines among the boundaries `0 .. i`,
/// counted without saturation.
pub open spec fn plain_verticals(cfg: GridConfig, i: int, nrows: int, ncols: int) -> int
    decreases i,
{
    if i <= 0 {
        0
    } else {
        plain_verticals(cfg, i - 1, nrows, ncols) + (if cfg.has_vertical_spec(
            i - 1,
            nrows,
            ncols,
        ) {
            1int
        } else {
            0
        })
    }
}

/// The exact width of one rendered table line: every column's width plus
/// one for every vertical grid line that exists.
pub open spec fn table_width_plain(cfg: GridConfig, widths: Seq<usize>, nrows: int, ncols: int) -> int {
    plain_sum(widths, ncols) + plain_verticals(cfg, ncols + 1, nrows, ncols)
}

proof fn lemma_content_boundary_part_len(
    recs: Records,
    cfg: GridConfig,
    widths: Seq<usize>,
    heights: Seq<usize>,
    r: int,
    k: usize,
    i: int,
    nrows: int,
    ncols: int,
)
    requires
        plain_cfg(cfg),
    ensures
        content_boundary_part(recs, cfg, widths, heights, r, k, i, nrows, ncols).len()
            == if cfg.has_vertical_spec(i, nrows, ncols) {
            1int
        } else {
            0
        },
{
    if cfg.has_vertical_spec(i, nrows, ncols) {
        let o = crate::render::owner_cell_spec(cfg, r, i, nrows, ncols);
        lemma_plain_text_color(cfg, o.0, o.1);
        lemma_plain_border_colors(cfg, r, i);
        if i > 0 {
            lemma_plain_border_colors(cfg, r, i - 1);
        }
    }
}

proof fn lemma_content_column_part_len(
    recs: Records,
    cfg: GridConfig,
    widths: Seq<usize>,
    heights: Seq<usize>,
    r: int,
    k: usize,
    c: int,
    nrows: int,
    ncols: int,
)
    requires
        plain_cfg(cfg),
        0 <= c < widths.len(),
    ensures
        content_column_part(recs, cfg, widths, heights, r, k, c, nrows, ncols).len()
            == widths[c],
{
    let o = crate::render::owner_cell_spec(cfg, r, c, nrows, ncols);
    lemma_plain_text_color(cfg, o.0, o.1);
    let b = block_line_spec(
        recs,
        cfg,
        widths,
        heights,
        o.0,
        o.1,
        crate::render::content_local_line(cfg, heights, o.0, r, k, nrows, ncols) as int,
        nrows,
        ncols,
    );
    let pos = crate::render::pos_in_block(cfg, widths, o.1, c, nrows, ncols);
    let start = if pos > b.len() {
        b.len() as int
    } else {
        pos as int
    };
    lemma_pad_to_len(b.skip(start), widths[c] as nat);
}

proof fn lemma_content_line_upto_len(
    recs: Records,
    cfg: GridConfig,
    widths: Seq<usize>,
    heights: Seq<usize>,
    r: int,
    k: usize,
    c: int,
    nrows: int,
    ncols: int,
)
    requires
        plain_cfg(cfg),
        0 <= c <= widths.len(),
    ensures
        content_line_upto(recs, cfg, widths, heights, r, k, c, nrows, ncols).len() == plain_sum(
            widths,
            c,
        ) + plain_verticals(cfg, c, nrows, ncols),
    decreases c,
{
    if c > 0 {
        lemma_content_line_upto_len(recs, cfg, widths, heights, r, k, c - 1, nrows, ncols);
        lemma_content_boundary_part_len(recs, cfg, widths, heights, r, k, c - 1, nrows, ncols);
        lemma_content_column_part_len(recs, cfg, widths, heights, r, k, c - 1, nrows, ncols);
    }
}

proof fn lemma_content_line_len(
    recs: Records,
    cfg: GridConfig,
    widths: Seq<usize>,
    heights: Seq<usize>,
    r: int,
    k: usize,
    nrows: int,
    ncols: int,
)
    requires
        plain_cfg(cfg),
        ncols == widths.len(),
    ensures
        content_line_spec(recs, cfg, widths, heights, r, k, nrows, ncols).len()
            == table_width_plain(cfg, widths, nrows, ncols),
{
    lemma_content_line_upto_len(recs, cfg, widths, heights, r, k, ncols, nrows, ncols);
    lemma_content_boundary_part_len(recs, cfg, widths, heights, r, k, ncols, nrows, ncols);
}

proof fn lemma_sep_boundary_part_len(
    recs: Records,
    cfg: GridConfig,
    widths: Seq<usize>,
    heights: Seq<usize>,
    r: int,
    i: int,
    nrows: int,
    ncols: int,
)
    requires
        plain_cfg(cfg),
    ensures
        sep_boundary_part(recs, cfg, widths, heights, r, i, nrows, ncols).len()
            == if cfg.has_vertical_spec(i, nrows, ncols) {
            1int
        } else {
            0
        },
{
    if cfg.has_vertical_spec(i, nrows, ncols) {
        let o = crate::render::owner_cell_spec(cfg, r, i, nrows, ncols);
        lemma_plain_text_color(cfg, o.0, o.1);
        lemma_plain_border_colors(cfg, r, i);
        if i > 0 {
            lemma_plain_border_colors(cfg, r, i - 1);
        }
        if r > 0 {
            lemma_plain_border_colors(cfg, r - 1, i);
            if i > 0 {
                lemma_plain_border_colors(cfg, r - 1, i - 1);
            }
        }
    }
}

proof fn lemma_sep_column_part_len(
    recs: Records,
    cfg: GridConfig,
    widths: Seq<usize>,
    heights: Seq<usize>,
    r: int,
    c: int,
    nrows: int,
    ncols: int,
)
    requires
        plain_cfg(cfg),
        0 <= c < widths.len(),
    ensures
        sep_column_part(recs, cfg, widths, heights, r, c, nrows, ncols).len() == widths[c],
{
    if crate::render::crossing_spec(cfg, r, c, nrows, ncols) {
        let o = crate::render::owner_cell_spec(cfg, r, c, nrows, ncols);
        lemma_plain_text_color(cfg, o.0, o.1);
        let b = block_line_spec(
            recs,
            cfg,
            widths,
            heights,
            o.0,
            o.1,
            crate::render::sep_local_line(cfg, heights, o.0, r, nrows, ncols) as int,
            nrows,
            ncols,
        );
        let pos = crate::render::pos_in_block(cfg, widths, o.1, c, nrows, ncols);
        let start = if pos > b.len() {
            b.len() as int
        } else {
            pos as int
        };
        lemma_pad_to_len(b.skip(start), widths[c] as nat);
    } else {
        lemma_plain_border_colors(cfg, r, c);
        if r > 0 {
            lemma_plain_border_colors(cfg, r - 1, c);
        }
        lemma_char_fill_len(
            widths[c] as nat,
            crate::render::horizontal_glyph_spec(cfg, r, c, nrows),
        );
    }
}

proof fn lemma_sep_line_upto_len(
    recs: Records,
    cfg: GridConfig,
    widths: Seq<usize>,
    heights: Seq<usize>,
    r: int,
    c: int,
    nrows: int,
    ncols: int,
)
    requires
        plain_cfg(cfg),
        0 <= c <= widths.len(),
    ensures
        sep_line_upto(recs, cfg, widths, heights, r, c, nrows, ncols).len() == plain_sum(widths, c)
            + plain_verticals(cfg, c, nrows, ncols),
    decreases c,
{
    if c > 0 {
        lemma_sep_line_upto_len(recs, cfg, widths, heights, r, c - 1, nrows, ncols);
        lemma_sep_boundary_part_len(recs, cfg, widths, heights, r, c - 1, nrows, ncols);
        lemma_sep_column_part_len(recs, cfg, widths, heights, r, c - 1, nrows, ncols);
    }
}

proof fn lemma_sep_line_len(
    recs: Records,
    cfg: GridConfig,
    widths: Seq<usize>,
    heights: Seq<usize>,
    r: int,
    nrows: int,
    ncols: int,
)
    requires
        plain_cfg(cfg),
        ncols == widths.len(),
    ensures
        sep_line_spec(recs, cfg, widths, heights, r, nrows, ncols).len() == table_width_plain(
            cfg,
            widths,
            nrows,
            ncols,
        ),
{
    lemma_sep_line_upto_len(recs, cfg, widths, heights, r, ncols, nrows, ncols);
    lemma_sep_boundary_part_len(recs, cfg, widths, heights, r, ncols, nrows, ncols);
}

proof fn lemma_row_content_lines_len(
    recs: Records,
    cfg: GridConfig,
    widths: Seq<usize>,
    heights: Seq<usize>,
    r: int,
    k: int,
    nrows: int,
    ncols: int,
)
    requires
        plain_cfg(cfg),
        ncols == widths.len(),
    ensures
        forall|i: int|
            0 <= i < row_content_lines(recs, cfg, widths, heights, r, k, nrows, ncols).len() ==> (
            #[trigger] row_content_lines(recs, cfg, widths, heights, r, k, nrows, ncols)[i]).len()
                == table_width_plain(cfg, widths, nrows, ncols),
    decreases k,
{
    if k > 0 {
        lemma_row_content_lines_len(recs, cfg, widths, heights, r, k - 1, nrows, ncols);
        lemma_content_line_len(recs, cfg, widths, heights, r, (k - 1) as usize, nrows, ncols);
        let whole = row_content_lines(recs, cfg, widths, heights, r, k, nrows, ncols);
        let prev = row_content_lines(recs, cfg, widths, heights, r, k - 1, nrows, ncols);
        assert forall|i: int| 0 <= i < whole.len() implies (#[trigger] whole[i]).len()
            == table_width_plain(cfg, widths, nrows, ncols) by {
            if i < prev.len() {
                assert(whole[i] == prev[i]);
            } else {
                assert(whole[i] == content_line_spec(
                    recs,
                    cfg,
                    widths,
                    heights,
                    r,
                    (k - 1) as usize,
                    nrows,
                    ncols,
                ));
            }
        }
    }
}

proof fn lemma_grid_lines_from_len(
    recs: Records,
    cfg: GridConfig,
    widths: Seq<usize>,
    heights: Seq<usize>,
    r: int,
    nrows: int,
    ncols: int,
)
    requires
        plain_cfg(cfg),
        ncols == widths.len(),
    ensures
        forall|i: int|
            0 <= i < grid_lines_from(recs, cfg, widths, heights, r, nrows, ncols).len() ==> (
            #[trigger] grid_lines_from(recs, cfg, widths, heights, r, nrows, ncols)[i]).len()
                == table_width_plain(cfg, widths, nrows, ncols),
    decreases nrows - r,
{
    if r < 0 || r >= nrows {
        lemma_sep_line_len(recs, cfg, widths, heights, nrows, nrows, ncols);
    } else {
        lemma_grid_lines_from_len(recs, cfg, widths, heights, r + 1, nrows, ncols);
        lemma_row_content_lines_len(
            recs,
            cfg,
            widths,
            heights,
            r,
            heights[r] as int,
            nrows,
            ncols,
        );
        lemma_sep_line_len(recs, cfg, widths, heights, r, nrows, ncols);
        let whole = grid_lines_from(recs, cfg, widths, heights, r, nrows, ncols);
        let seps = if cfg.has_horizontal_spec(r, nrows, ncols) {
            seq![sep_line_spec(recs, cfg, widths, heights, r, nrows, ncols)]
        } else {
            Seq::<Seq<char>>::empty()
        };
        let body = row_content_lines(recs, cfg, widths, heights, r, heights[r] as int, nrows, ncols);
        let rest = grid_lines_from(recs, cfg, widths, heights, r + 1, nrows, ncols);
        assert forall|i: int| 0 <= i < whole.len() implies (#[trigger] whole[i]).len()
            == table_width_plain(cfg, widths, nrows, ncols) by {
            if i < seps.len() {
                assert(whole[i] == sep_line_spec(recs, cfg, widths, heights, r, nrows, ncols));
            } else if i < seps.len() + body.len() {
                assert(whole[i] == body[i - seps.len()]);
            } else {
                assert(whole[i] == rest[i - seps.len() - body.len()]);
            }
        }
    }
}

/// Every line of a rendered table has the same visual width: the sum of
/// the column widths plus one for every vertical grid line, exactly.  The
/// law is stated over the table's lines before the margins are added; a
/// configuration without colors renders plain text, so a line's length is
/// its visual width.
pub proof fn lemma_uniform_line_width(
    recs: Records,
    cfg: GridConfig,
    widths: Seq<usize>,
    heights: Seq<usize>,
)
    requires
        plain_cfg(cfg),
        widths.len() == recs.col_count_spec(),
    ensures
        forall|i: int|
            0 <= i < table_lines_spec(recs, cfg, widths, heights).len() ==> (
            #[trigger] table_lines_spec(recs, cfg, widths, heights)[i]).len()
                == table_width_plain(
                cfg,
                widths,
                recs.row_count_spec() as int,
                recs.col_count_spec() as int,
            ),
{
    lemma_grid_lines_from_len(
        recs,
        cfg,
        widths,
        heights,
        0,
        recs.row_count_spec() as int,
        recs.col_count_spec() as int,
    );
}

/// A spanned cell's content block is exactly as wide as its covered
/// columns together with the grid lines between them: every line of the
/// block has length [`block_width_sum`], so the interior vertical lines
/// never show beside it — their space is part of the block.
pub proof fn lemma_span_conservation(
    recs: Records,
    cfg: GridConfig,
    widths: Seq<usize>,
    heights: Seq<usize>,
    r0: int,
    c0: int,
    l: int,
    nrows: int,
    ncols: int,
)
    ensures
        block_line_spec(recs, cfg, widths, heights, r0, c0, l, nrows, ncols).len()
            == block_width_sum(
            cfg,
            widths,
            c0,
            col_span_end(cfg, r0, c0, ncols),
            nrows,
            ncols,
        ),
{
    let cend = col_span_end(cfg, r0, c0, ncols);
    let w_total = block_width_sum(cfg, widths, c0, cend, nrows, ncols);
    let b = block_line_spec(recs, cfg, widths, heights, r0, c0, l, nrows, ncols);
    assert(b.len() == w_total as nat) by {
        crate::render::lemma_block_line_is_padded(
            recs,
            cfg,
            widths,
            heights,
            r0,
            c0,
            l,
            nrows,
            ncols,
        );
    }
}

/// With the margins off, the output lines are exactly the table lines:
/// together with [`lemma_uniform_line_width`] every line of the rendered
/// text has the same visual width.
pub proof fn lemma_no_margin_lines(
    recs: Records,
    cfg: GridConfig,
    widths: Seq<usize>,
    heights: Seq<usize>,
)
    requires
        cfg.margin.left.size == 0,
        cfg.margin.right.size == 0,
        cfg.margin.top.size == 0,
        cfg.margin.bottom.size == 0,
    ensures
        crate::render::all_lines_spec(recs, cfg, widths, heights) == table_lines_spec(
            recs,
            cfg,
            widths,
            heights,
        ),
{
    let tl = table_lines_spec(recs, cfg, widths, heights);
    let al = crate::render::all_lines_spec(recs, cfg, widths, heights);
    let mapped = tl.map_values(|l: Seq<char>| crate::render::margin_wrap_line(cfg, l));
    assert forall|i: int| 0 <= i < mapped.len() implies #[trigger] mapped[i] == tl[i] by {
        assert(crate::render::margin_wrap_line(cfg, tl[i]) =~= tl[i]);
    }
    assert(al =~~= tl);
}

/// A grid with no rows or no columns renders to the empty string,
/// whatever the configuration and dimensions.
pub proof fn lemma_empty_grid(
    recs: Records,
    cfg: GridConfig,
    widths: Seq<usize>,
    heights: Seq<usize>,
)
    requires
        recs.row_count_spec() == 0 || recs.col_count_spec() == 0,
    ensures
        render_spec(recs, cfg, widths, heights) == Seq::<char>::empty(),
{
}

proof fn lemma_base_col_width_bound(
    recs: Records,
    cfg: GridConfig,
    c: int,
    r: int,
    nrows: int,
    ncols: int,
)
    ensures
        forall|rr: int|
            0 <= rr < r && !crate::estimate::is_covered_spec(cfg, rr, c, nrows, ncols)
                && cfg.span_column_spec(rr, c) is None ==> crate::estimate::base_col_width(
                recs,
                cfg,
                c,
                r,
                nrows,
                ncols,
            ) >= #[trigger] crate::estimate::box_width_spec(recs, cfg, rr, c),
    decreases r,
{
    if r > 0 {
        lemma_base_col_width_bound(recs, cfg, c, r - 1, nrows, ncols);
    }
}

proof fn lemma_base_widths_index(recs: Records, cfg: GridConfig, c: int, nrows: int, ncols: int)
    ensures
        crate::estimate::base_widths(recs, cfg, c, nrows, ncols).len() == if c >= 0 {
            c
        } else {
            0
        },
        forall|i: int|
            0 <= i < c ==> #[trigger] crate::estimate::base_widths(recs, cfg, c, nrows, ncols)[i]
                == crate::estimate::base_col_width(recs, cfg, i, nrows, nrows, ncols),
    decreases c,
{
    if c > 0 {
        lemma_base_widths_index(recs, cfg, c - 1, nrows, ncols);
    }
}

proof fn lemma_span_step_w_ge(
    recs: Records,
    cfg: GridConfig,
    widths: Seq<usize>,
    r: int,
    c: int,
    nrows: int,
    ncols: int,
)
    requires
        widths.len() == ncols,
        0 <= c < ncols,
    ensures
        crate::estimate::span_step_w(recs, cfg, widths, r, c, nrows, ncols).len() == widths.len(),
        forall|i: int|
            0 <= i < widths.len() ==> #[trigger] crate::estimate::span_step_w(
                recs,
                cfg,
                widths,
                r,
                c,
                nrows,
                ncols,
            )[i] >= widths[i],
{
}

proof fn lemma_span_pass_row_w_ge(
    recs: Records,
    cfg: GridConfig,
    widths: Seq<usize>,
    r: int,
    c: int,
    nrows: int,
    ncols: int,
)
    requires
        widths.len() == ncols,
        0 <= c,
    ensures
        crate::estimate::span_pass_row_w(recs, cfg, widths, r, c, nrows, ncols).len()
            == widths.len(),
        forall|i: int|
            0 <= i < widths.len() ==> #[trigger] crate::estimate::span_pass_row_w(
                recs,
                cfg,
                widths,
                r,
                c,
                nrows,
                ncols,
            )[i] >= widths[i],
    decreases ncols - c,
{
    if c < ncols {
        lemma_span_step_w_ge(recs, cfg, widths, r, c, nrows, ncols);
        lemma_span_pass_row_w_ge(
            recs,
            cfg,
            crate::estimate::span_step_w(recs, cfg, widths, r, c, nrows, ncols),
            r,
            c + 1,
            nrows,
            ncols,
        );
    }
}

proof fn lemma_span_pass_w_ge(
    recs: Records,
    cfg: GridConfig,
    widths: Seq<usize>,
    r: int,
    nrows: int,
    ncols: int,
)
    requires
        widths.len() == ncols,
    ensures
        crate::estimate::span_pass_w(recs, cfg, widths, r, nrows, ncols).len() == widths.len(),
        forall|i: int|
            0 <= i < widths.len() ==> #[trigger] crate::estimate::span_pass_w(
                recs,
                cfg,
                widths,
                r,
                nrows,
                ncols,
            )[i] >= widths[i],
    decreases nrows - r,
{
    if r < nrows {
        lemma_span_pass_row_w_ge(recs, cfg, widths, r, 0, nrows, ncols);
        lemma_span_pass_w_ge(
            recs,
            cfg,
            crate::estimate::span_pass_row_w(recs, cfg, widths, r, 0, nrows, ncols),
            r + 1,
            nrows,
            ncols,
        );
    }
}

/// The estimated widths lose nothing: every cell that sits alone in its
/// column — not covered by a span and claiming none — gets at least its
/// own box width, padding included.
pub proof fn lemma_estimated_widths_fit(recs: Records, cfg: GridConfig)
    ensures
        crate::estimate::widths_spec(recs, cfg).len() == recs.col_count_spec(),
        forall|r: int, c: int|
            0 <= r < recs.row_count_spec() && 0 <= c < recs.col_count_spec()
                && !crate::estimate::is_covered_spec(
                cfg,
                r,
                c,
                recs.row_count_spec() as int,
                recs.col_count_spec() as int,
            ) && cfg.span_column_spec(r, c) is None ==> crate::estimate::widths_spec(recs, cfg)[c]
                >= #[trigger] crate::estimate::box_width_spec(recs, cfg, r, c),
{
    let nrows = recs.row_count_spec() as int;
    let ncols = recs.col_count_spec() as int;
    let base = crate::estimate::base_widths(recs, cfg, ncols, nrows, ncols);
    lemma_base_widths_index(recs, cfg, ncols, nrows, ncols);
    lemma_span_pass_w_ge(recs, cfg, base, 0, nrows, ncols);
    assert forall|r: int, c: int|
        0 <= r < nrows && 0 <= c < ncols && !crate::estimate::is_covered_spec(
            cfg,
            r,
            c,
            nrows,
            ncols,
        ) && cfg.span_column_spec(r, c) is None implies crate::estimate::widths_spec(recs, cfg)[c]
        >= #[trigger] crate::estimate::box_width_spec(recs, cfg, r, c) by {
        lemma_base_col_width_bound(recs, cfg, c, nrows, nrows, ncols);
        assert(base[c] >= crate::estimate::box_width_spec(recs, cfg, r, c));
        assert(crate::estimate::widths_spec(recs, cfg)[c] >= base[c]);
    }
}

proof fn lemma_base_row_height_bound(
    recs: Records,
    cfg: GridConfig,
    r: int,
    c: int,
    nrows: int,
    ncols: int,
)
    ensures
        forall|cc: int|
            0 <= cc < c && !crate::estimate::is_covered_spec(cfg, r, cc, nrows, ncols)
                && cfg.span_row_spec(r, cc) is None ==> crate::estimate::base_row_height(
                recs,
                cfg,
                r,
                c,
                nrows,
                ncols,
            ) >= #[trigger] crate::estimate::box_height_spec(recs, cfg, r, cc),
    decreases c,
{
    if c > 0 {
        lemma_base_row_height_bound(recs, cfg, r, c - 1, nrows, ncols);
    }
}

proof fn lemma_base_heights_index(recs: Records, cfg: GridConfig, r: int, nrows: int, ncols: int)
    ensures
        crate::estimate::base_heights(recs, cfg, r, nrows, ncols).len() == if r >= 0 {
            r
        } else {
            0
        },
        forall|i: int|
            0 <= i < r ==> #[trigger] crate::estimate::base_heights(recs, cfg, r, nrows, ncols)[i]
                == crate::estimate::base_row_height(recs, cfg, i, ncols, nrows, ncols),
    decreases r,
{
    if r > 0 {
        lemma_base_heights_index(recs, cfg, r - 1, nrows, ncols);
    }
}

proof fn lemma_span_pass_row_h_ge(
    recs: Records,
    cfg: GridConfig,
    heights: Seq<usize>,
    r: int,
    c: int,
    nrows: int,
    ncols: int,
)
    requires
        heights.len() == nrows,
        0 <= r < nrows,
        0 <= c,
    ensures
        crate::estimate::span_pass_row_h(recs, cfg, heights, r, c, nrows, ncols).len()
            == heights.len(),
        forall|i: int|
            0 <= i < heights.len() ==> #[trigger] crate::estimate::span_pass_row_h(
                recs,
                cfg,
                heights,
                r,
                c,
                nrows,
                ncols,
            )[i] >= heights[i],
    decreases ncols - c,
{
    if c < ncols {
        lemma_span_pass_row_h_ge(
            recs,
            cfg,
            crate::estimate::span_step_h(recs, cfg, heights, r, c, nrows, ncols),
            r,
            c + 1,
            nrows,
            ncols,
        );
    }
}

proof fn lemma_span_pass_h_ge(
    recs: Records,
    cfg: GridConfig,
    heights: Seq<usize>,
    r: int,
    nrows: int,
    ncols: int,
)
    requires
        heights.len() == nrows,
        0 <= r,
    ensures
        crate::estimate::span_pass_h(recs, cfg, heights, r, nrows, ncols).len() == heights.len(),
        forall|i: int|
            0 <= i < heights.len() ==> #[trigger] crate::estimate::span_pass_h(
                recs,
                cfg,
                heights,
                r,
                nrows,
                ncols,
            )[i] >= heights[i],
    decreases nrows - r,
{
    if r < nrows {
        lemma_span_pass_row_h_ge(recs, cfg, heights, r, 0, nrows, ncols);
        lemma_span_pass_h_ge(
            recs,
            cfg,
            crate::estimate::span_pass_row_h(recs, cfg, heights, r, 0, nrows, ncols),
            r + 1,
            nrows,
            ncols,
        );
    }
}

/// The estimated heights lose nothing: every cell that sits alone in its
/// row — not covered by a span and claiming none — gets at least its own
/// box height, padding included.
pub proof fn lemma_estimated_heights_fit(recs: Records, cfg: GridConfig)
    ensures
        crate::estimate::heights_spec(recs, cfg).len() == recs.row_count_spec(),
        forall|r: int, c: int|
            0 <= r < recs.row_count_spec() && 0 <= c < recs.col_count_spec()
                && !crate::estimate::is_covered_spec(
                cfg,
                r,
                c,
                recs.row_count_spec() as int,
                recs.col_count_spec() as int,
            ) && cfg.span_row_spec(r, c) is None ==> crate::estimate::heights_spec(recs, cfg)[r]
                >= #[trigger] crate::estimate::box_height_spec(recs, cfg, r, c),
{
    let nrows = recs.row_count_spec() as int;
    let ncols = recs.col_count_spec() as int;
    let base = crate::estimate::base_heights(recs, cfg, nrows, nrows, ncols);
    lemma_base_heights_index(recs, cfg, nrows, nrows, ncols);
    lemma_span_pass_h_ge(recs, cfg, base, 0, nrows, ncols);
    assert forall|r: int, c: int|
        0 <= r < nrows && 0 <= c < ncols && !crate::estimate::is_covered_spec(
            cfg,
            r,
            c,
            nrows,
            ncols,
        ) && cfg.span_row_spec(r, c) is None implies crate::estimate::heights_spec(recs, cfg)[r]
        >= #[trigger] crate::estimate::box_height_spec(recs, cfg, r, c) by {
        lemma_base_row_height_bound(recs, cfg, r, ncols, nrows, ncols);
        assert(base[r] >= crate::estimate::box_height_spec(recs, cfg, r, c));
        assert(crate::estimate::heights_spec(recs, cfg)[r] >= base[r]);
    }
}

/// What the width adjuster achieves, in terms of the target: with `n`
/// single-character cuts asked for, the columns lose exactly `n`
/// characters when their slack above the floors allows it, and exactly
/// the slack otherwise; no column ends below its floor.
pub proof fn lemma_truncation_floor(
    widths: Seq<usize>,
    mins: Seq<usize>,
    p: Priority,
    n: nat,
)
    requires
        widths.len() == mins.len(),
    ensures
        plain_sum(decrease_spec(widths, mins, p, 0, n), widths.len() as int) == plain_sum(
            widths,
            widths.len() as int,
        ) - (if n <= slack_sum(widths, mins, widths.len() as int) {
            n as int
        } else {
            slack_sum(widths, mins, widths.len() as int)
        }),
        forall|i: int|
            0 <= i < widths.len() ==> #[trigger] decrease_spec(widths, mins, p, 0, n)[i]
                >= (if widths[i] <= mins[i] {
                widths[i]
            } else {
                mins[i]
            }),
{
    lemma_decrease_sum(widths, mins, p, 0, n);
}

/// A prefix sum of widths grows with its cut-off.
proof fn lemma_plain_sum_mono(widths: Seq<usize>, c: int)
    ensures
        c > 0 ==> plain_sum(widths, c - 1) <= plain_sum(widths, c),
        plain_sum(widths, c) >= 0,
    decreases c,
{
    if c > 0 {
        lemma_plain_sum_mono(widths, c - 1);
    }
}

/// Below the machine limit the saturating width sum is the plain one.
proof fn lemma_widths_sum_plain(widths: Seq<usize>, c: int)
    requires
        plain_sum(widths, c) <= usize::MAX,
    ensures
        crate::estimate::widths_sum(widths, c) == plain_sum(widths, c),
    decreases c,
{
    if c > 0 {
        lemma_plain_sum_mono(widths, c);
        lemma_widths_sum_plain(widths, c - 1);
    }
}

/// A vertical-line count never goes down as the range grows.
proof fn lemma_plain_verticals_mono(cfg: GridConfig, i: int, nrows: int, ncols: int)
    ensures
        i > 0 ==> plain_verticals(cfg, i - 1, nrows, ncols) <= plain_verticals(
            cfg,
            i,
            nrows,
            ncols,
        ),
        plain_verticals(cfg, i, nrows, ncols) >= 0,
    decreases i,
{
    if i > 0 {
        lemma_plain_verticals_mono(cfg, i - 1, nrows, ncols);
    }
}

/// Below the machine limit the saturating vertical count is the plain one.
proof fn lemma_verticals_plain(cfg: GridConfig, i: int, nrows: int, ncols: int)
    requires
        plain_verticals(cfg, i, nrows, ncols) <= usize::MAX,
    ensures
        crate::estimate::verticals_before(cfg, i, nrows, ncols) == plain_verticals(
            cfg,
            i,
            nrows,
            ncols,
        ),
    decreases i,
{
    if i > 0 {
        lemma_plain_verticals_mono(cfg, i, nrows, ncols);
        lemma_verticals_plain(cfg, i - 1, nrows, ncols);
    }
}

/// Below the machine limit the saturating total width is the exact one.
pub proof fn lemma_total_width_plain(cfg: GridConfig, widths: Seq<usize>, nrows: int, ncols: int)
    requires
        ncols == widths.len(),
        table_width_plain(cfg, widths, nrows, ncols) <= usize::MAX,
    ensures
        crate::estimate::total_width_spec(cfg, widths, nrows, ncols) == table_width_plain(
            cfg,
            widths,
            nrows,
            ncols,
        ),
{
    lemma_plain_sum_mono(widths, ncols);
    lemma_plain_verticals_mono(cfg, ncols + 1, nrows, ncols);
    lemma_widths_sum_plain(widths, ncols);
    lemma_verticals_plain(cfg, ncols + 1, nrows, ncols);
}

/// A pointwise-smaller width list has the smaller plain sum.
proof fn lemma_plain_sum_le(a: Seq<usize>, b: Seq<usize>, c: int)
    requires
        forall|i: int| 0 <= i < c ==> a[i] <= b[i],
    ensures
        plain_sum(a, c) <= plain_sum(b, c),
    decreases c,
{
    if c > 0 {
        lemma_plain_sum_le(a, b, c - 1);
    }
}

/// The truncation floor at the level of the rendered total: asked to meet
/// `target`, the adjuster lands the total width exactly on the target
/// when the columns' slack above their floors reaches it, and exactly on
/// `total - slack` — the best reachable width — otherwise.  The cut count
/// is the one the table-wide truncation uses.
pub proof fn lemma_truncation_floor_total(
    cfg: GridConfig,
    widths: Seq<usize>,
    mins: Seq<usize>,
    p: Priority,
    target: usize,
    nrows: int,
    ncols: int,
)
    requires
        ncols == widths.len(),
        widths.len() == mins.len(),
        table_width_plain(cfg, widths, nrows, ncols) <= usize::MAX,
        target <= crate::estimate::total_width_spec(cfg, widths, nrows, ncols),
    ensures
        ({
            let total = crate::estimate::total_width_spec(cfg, widths, nrows, ncols);
            let n = crate::text::sat_sub(total as nat, target as nat);
            let adjusted = decrease_spec(widths, mins, p, 0, n);
            let slack = slack_sum(widths, mins, ncols);
            crate::estimate::total_width_spec(cfg, adjusted, nrows, ncols) == if slack >= total
                - target {
                target as int
            } else {
                total - slack
            }
        }),
{
    let total = crate::estimate::total_width_spec(cfg, widths, nrows, ncols);
    let n = crate::text::sat_sub(total as nat, target as nat);
    let adjusted = decrease_spec(widths, mins, p, 0, n);
    let slack = slack_sum(widths, mins, ncols);
    lemma_total_width_plain(cfg, widths, nrows, ncols);
    assert(n == total - target);
    lemma_decrease_sum(widths, mins, p, 0, n);
    crate::truncate::lemma_decrease_len(widths, mins, p, 0, n);
    assert(plain_sum(adjusted, ncols) == plain_sum(widths, ncols) - (if n <= slack {
        n as int
    } else {
        slack
    }));
    lemma_plain_sum_le(adjusted, widths, ncols);
    crate::truncate::lemma_slack_nonneg(widths, mins, ncols);
    lemma_plain_verticals_mono(cfg, ncols + 1, nrows, ncols);
    lemma_total_width_plain(cfg, adjusted, nrows, ncols);
}

} // verus!
