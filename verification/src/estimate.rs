//! The dimension estimator: minimum per-column widths and per-row heights
//! that display every cell without loss.
//!
//! A cell's box is its processed content (tabs expanded, lines split,
//! trimmed as the formatting flags ask) plus its padding.  A non-spanned
//! cell's box bounds its own column and row; a spanned cell's box bounds the
//! sum of the covered columns (or rows) plus the grid lines between them,
//! and a shortfall is settled by growing the last covered column (or row).

use vstd::prelude::*;

use crate::config::Formatting;
use crate::config::GridConfig;
use crate::records::Records;
use crate::text::chars_vec;
use crate::text::expand_tabs;
use crate::text::expand_tabs_spec;
use crate::text::lines_view;
use crate::text::sadd;
use crate::text::split_lines;
use crate::text::split_lines_spec;
use crate::text::trim_blanks;
use crate::text::trim_spec;
use crate::text::usat_add;
use crate::text::width_cap;

verus! {

/// A line that holds only blanks.
pub open spec fn is_blank_line(l: Seq<char>) -> bool {
    forall|i: int| 0 <= i < l.len() ==> l[i] == ' '
}

/// The number of leading blank lines.
pub open spec fn leading_blank_lines(ls: Seq<Seq<char>>) -> nat
    decreases ls.len(),
{
    if ls.len() == 0 || !is_blank_line(ls[0]) {
        0
    } else {
        1 + leading_blank_lines(ls.skip(1))
    }
}

/// `leading_blank_lines` equals the first index that stops a scan over
/// blank lines.
pub proof fn lemma_leading_blank_lines_eq(ls: Seq<Seq<char>>, k: int)
    requires
        0 <= k <= ls.len(),
        forall|j: int| 0 <= j < k ==> is_blank_line(#[trigger] ls[j]),
        k < ls.len() ==> !is_blank_line(ls[k]),
    ensures
        leading_blank_lines(ls) == k,
    decreases k,
{
    if k > 0 {
        assert(is_blank_line(ls[0]));
        assert forall|j: int| 0 <= j < k - 1 implies is_blank_line(#[trigger] ls.skip(1)[j]) by {
            assert(ls.skip(1)[j] == ls[j + 1]);
        }
        if k - 1 < ls.skip(1).len() {
            assert(ls.skip(1)[k - 1] == ls[k]);
        }
        lemma_leading_blank_lines_eq(ls.skip(1), k - 1);
    }
}

/// The lines with blank lines at both edges removed.
pub open spec fn vtrim_lines_spec(ls: Seq<Seq<char>>) -> Seq<Seq<char>> {
    let front = leading_blank_lines(ls);
    let back = leading_blank_lines(ls.skip(front as int).reverse());
    ls.skip(front as int).reverse().skip(back as int).reverse()
}

/// Removes blank lines at both edges.
pub fn vtrim_lines(ls: Vec<Vec<char>>) -> (r: Vec<Vec<char>>)
    ensures
        lines_view(r@) == vtrim_lines_spec(lines_view(ls@)),
{
    let ghost lsv = lines_view(ls@);
    let mut start: usize = 0;
    while start < ls.len() && is_blank_vec(&ls[start])
        invariant
            start <= ls@.len(),
            lsv == lines_view(ls@),
            forall|j: int| 0 <= j < start ==> is_blank_line(#[trigger] lsv[j]),
        decreases ls@.len() - start,
    {
        start = start + 1;
    }
    proof {
        lemma_leading_blank_lines_eq(lsv, start as int);
    }
    let mut end: usize = ls.len();
    while end > start && is_blank_vec(&ls[end - 1])
        invariant
            start <= end <= ls@.len(),
            lsv == lines_view(ls@),
            forall|j: int| end <= j < lsv.len() ==> is_blank_line(#[trigger] lsv[j]),
        decreases end,
    {
        end = end - 1;
    }
    proof {
        let tail = lsv.skip(start as int);
        let rev = tail.reverse();
        let k = lsv.len() - end;
        assert forall|j: int| 0 <= j < k implies is_blank_line(#[trigger] rev[j]) by {
            assert(rev[j] == tail[tail.len() - 1 - j]);
            assert(tail[tail.len() - 1 - j] == lsv[lsv.len() - 1 - j]);
        }
        if k < rev.len() {
            assert(rev[k as int] == tail[tail.len() - 1 - k]);
            assert(tail[tail.len() - 1 - k] == lsv[end - 1]);
        }
        lemma_leading_blank_lines_eq(rev, k as int);
    }
    let mut out: Vec<Vec<char>> = Vec::new();
    let mut i: usize = start;
    proof {
        assert(lines_view(out@) =~= lsv.subrange(start as int, start as int));
    }
    while i < end
        invariant
            start <= i <= end <= ls@.len(),
            lsv == lines_view(ls@),
            lines_view(out@) == lsv.subrange(start as int, i as int),
        decreases end - i,
    {
        let line = ls[i].clone();
        proof {
            assert forall|j: int| 0 <= j < line@.len() implies line@[j] == ls@[i as int]@[j] by {
                assert(vstd::pervasive::cloned::<char>(ls@[i as int]@[j], line@[j]));
            }
            assert(line@ =~= lsv[i as int]);
        }
        let ghost out0 = out@;
        out.push(line);
        proof {
            crate::text::lemma_lines_view_push(out0, out@[out@.len() - 1]);
            assert(lines_view(out@) =~= lsv.subrange(start as int, i + 1));
        }
        i = i + 1;
    }
    proof {
        let front = leading_blank_lines(lsv) as int;
        let back = leading_blank_lines(lsv.skip(front).reverse()) as int;
        assert(front == start && back == lsv.len() - end);
        assert(lsv.skip(front).reverse().skip(back).reverse() =~= lsv.subrange(
            start as int,
            end as int,
        ));
    }
    out
}

/// Whether the line holds only blanks.
pub fn is_blank_vec(l: &Vec<char>) -> (r: bool)
    ensures
        r == is_blank_line(l@),
{
    let mut i: usize = 0;
    while i < l.len()
        invariant
            i <= l@.len(),
            forall|j: int| 0 <= j < i ==> l@[j] == ' ',
        decreases l@.len() - i,
    {
        if l[i] != ' ' {
            return false;
        }
        i = i + 1;
    }
    true
}

/// The processed lines of a cell text: tabs expanded, split at newlines,
/// blank edges trimmed as the formatting flags ask.
pub open spec fn cell_lines_spec(text: Seq<char>, fmt: Formatting, tab_width: nat) -> Seq<
    Seq<char>,
> {
    let ls = split_lines_spec(expand_tabs_spec(text, tab_width));
    let ls2 = if fmt.horizontal_trim {
        ls.map_values(|l: Seq<char>| trim_spec(l))
    } else {
        ls
    };
    if fmt.vertical_trim {
        vtrim_lines_spec(ls2)
    } else {
        ls2
    }
}

/// Computes the processed lines of a cell text.
pub fn cell_lines(text: &String, fmt: Formatting, tab_width: usize) -> (r: Vec<Vec<char>>)
    ensures
        lines_view(r@) == cell_lines_spec(text@, fmt, tab_width as nat),
{
    let cv = chars_vec(text.as_str());
    let expanded = expand_tabs(&cv, tab_width);
    let mut ls = split_lines(&expanded);
    if fmt.horizontal_trim {
        let mut trimmed: Vec<Vec<char>> = Vec::new();
        let mut i: usize = 0;
        let ghost lsv = lines_view(ls@);
        proof {
            assert(lines_view(trimmed@) =~= lsv.map_values(|l: Seq<char>| trim_spec(l)).take(0));
        }
        while i < ls.len()
            invariant
                i <= ls@.len(),
                lsv == lines_view(ls@),
                lines_view(trimmed@) == lsv.map_values(|l: Seq<char>| trim_spec(l)).take(i as int),
            decreases ls@.len() - i,
        {
            let t = trim_blanks(&ls[i]);
            proof {
                assert(ls@[i as int]@ == lsv[i as int]);
            }
            let ghost t0 = trimmed@;
            trimmed.push(t);
            proof {
                crate::text::lemma_lines_view_push(t0, trimmed@[trimmed@.len() - 1]);
                assert(lines_view(trimmed@) =~= lsv.map_values(|l: Seq<char>| trim_spec(l)).take(
                    i + 1,
                ));
            }
            i = i + 1;
        }
        proof {
            let mapped = lsv.map_values(|l: Seq<char>| trim_spec(l));
            assert(mapped.take(mapped.len() as int) =~= mapped);
        }
        ls = trimmed;
    }
    if fmt.vertical_trim {
        ls = vtrim_lines(ls);
    }
    ls
}

/// The width of the widest line, capped at the machine size.
pub open spec fn max_line_width(ls: Seq<Seq<char>>) -> nat
    decreases ls.len(),
{
    if ls.len() == 0 {
        0
    } else {
        let rest = max_line_width(ls.drop_last());
        if ls.last().len() > rest {
            ls.last().len()
        } else {
            rest
        }
    }
}

/// Computes the width of the widest line.
pub fn content_width(ls: &Vec<Vec<char>>) -> (r: usize)
    ensures
        r == width_cap(max_line_width(lines_view(ls@))),
{
    let ghost lsv = lines_view(ls@);
    let mut best: usize = 0;
    let mut i: usize = 0;
    proof {
        assert(lsv.take(0) =~= Seq::<Seq<char>>::empty());
    }
    while i < ls.len()
        invariant
            i <= ls@.len(),
            lsv == lines_view(ls@),
            best == width_cap(max_line_width(lsv.take(i as int))),
        decreases ls@.len() - i,
    {
        let w = ls[i].len();
        proof {
            assert(lsv.take(i + 1).last() == lsv[i as int]);
            assert(lsv.take(i + 1).drop_last() =~= lsv.take(i as int));
            assert(ls@[i as int]@ == lsv[i as int]);
        }
        if w > best {
            best = w;
        }
        i = i + 1;
    }
    proof {
        assert(lsv.take(lsv.len() as int) =~= lsv);
    }
    best
}

/// The processed lines of the cell at `(r, c)`.
pub open spec fn cell_lines_at(recs: Records, cfg: GridConfig, r: int, c: int) -> Seq<Seq<char>> {
    cell_lines_spec(recs.grid()[r][c], cfg.formatting_spec(r, c), cfg.tab_width as nat)
}

/// The box width the cell at `(r, c)` requires: its widest processed line
/// plus its left and right padding.
pub open spec fn box_width_spec(recs: Records, cfg: GridConfig, r: int, c: int) -> usize {
    let pad = cfg.padding_spec(r, c);
    sadd(sadd(width_cap(max_line_width(cell_lines_at(recs, cfg, r, c))), pad.left.size), pad.right.size)
}

/// The box height the cell at `(r, c)` requires: its processed line count
/// plus its top and bottom padding.
pub open spec fn box_height_spec(recs: Records, cfg: GridConfig, r: int, c: int) -> usize {
    let pad = cfg.padding_spec(r, c);
    sadd(sadd(width_cap(cell_lines_at(recs, cfg, r, c).len()), pad.top.size), pad.bottom.size)
}

/// Computes the box width of the cell at `(r, c)`.
pub fn box_width(recs: &Records, cfg: &GridConfig, r: usize, c: usize) -> (res: usize)
    requires
        recs.wf(),
        r < recs.row_count_spec(),
        c < recs.col_count_spec(),
    ensures
        res == box_width_spec(*recs, *cfg, r as int, c as int),
{
    let fmt = cfg.get_formatting(r, c);
    let ls = cell_lines(recs.get(r, c), fmt, cfg.get_tab_width());
    let w = content_width(&ls);
    let pad = cfg.get_padding(r, c);
    usat_add(usat_add(w, pad.left.size), pad.right.size)
}

/// Computes the box height of the cell at `(r, c)`.
pub fn box_height(recs: &Records, cfg: &GridConfig, r: usize, c: usize) -> (res: usize)
    requires
        recs.wf(),
        r < recs.row_count_spec(),
        c < recs.col_count_spec(),
    ensures
        res == box_height_spec(*recs, *cfg, r as int, c as int),
{
    let fmt = cfg.get_formatting(r, c);
    let ls = cell_lines(recs.get(r, c), fmt, cfg.get_tab_width());
    let pad = cfg.get_padding(r, c);
    usat_add(usat_add(ls.len(), pad.top.size), pad.bottom.size)
}

/// The first column past the column span of the cell at `(r0, c0)`,
/// clamped to the grid: a span that claims more columns than remain is cut
/// at the grid edge.
pub open spec fn col_span_end(cfg: GridConfig, r0: int, c0: int, ncols: int) -> int {
    let s = match cfg.span_column_spec(r0, c0) {
        Some(s) => s as int,
        None => 1,
    };
    if c0 + s > ncols {
        ncols
    } else {
        c0 + s
    }
}

/// The first row past the row span of the cell at `(r0, c0)`, clamped to
/// the grid.
pub open spec fn row_span_end(cfg: GridConfig, r0: int, c0: int, nrows: int) -> int {
    let s = match cfg.span_row_spec(r0, c0) {
        Some(s) => s as int,
        None => 1,
    };
    if r0 + s > nrows {
        nrows
    } else {
        r0 + s
    }
}

/// Computes the clamped end column of the span at `(r0, c0)`.
pub fn col_span_end_at(cfg: &GridConfig, r0: usize, c0: usize, ncols: usize) -> (res: usize)
    requires
        c0 < ncols,
    ensures
        res == col_span_end(*cfg, r0 as int, c0 as int, ncols as int),
        c0 < res <= ncols,
{
    let s: usize = match cfg.get_span_column(r0, c0) {
        Some(s) => s,
        None => 1,
    };
    let end = usat_add(c0, s);
    if end > ncols {
        ncols
    } else {
        end
    }
}

/// Computes the clamped end row of the span at `(r0, c0)`.
pub fn row_span_end_at(cfg: &GridConfig, r0: usize, c0: usize, nrows: usize) -> (res: usize)
    requires
        r0 < nrows,
    ensures
        res == row_span_end(*cfg, r0 as int, c0 as int, nrows as int),
        r0 < res <= nrows,
{
    let s: usize = match cfg.get_span_row(r0, c0) {
        Some(s) => s,
        None => 1,
    };
    let end = usat_add(r0, s);
    if end > nrows {
        nrows
    } else {
        end
    }
}

/// Whether the cell at `(r0, c0)` covers the distinct position `(r, c)`
/// through its spans.
pub open spec fn covers_spec(
    cfg: GridConfig,
    r0: int,
    c0: int,
    r: int,
    c: int,
    nrows: int,
    ncols: int,
) -> bool {
    &&& 0 <= r0 < nrows
    &&& 0 <= c0 < ncols
    &&& !(r0 == r && c0 == c)
    &&& r0 <= r < row_span_end(cfg, r0, c0, nrows)
    &&& c0 <= c < col_span_end(cfg, r0, c0, ncols)
}

/// Whether the cell at `(r0, c0)` covers the distinct position `(r, c)`.
pub fn covers(cfg: &GridConfig, r0: usize, c0: usize, r: usize, c: usize, nrows: usize, ncols: usize) -> (res: bool)
    requires
        r0 < nrows,
        c0 < ncols,
    ensures
        res == covers_spec(*cfg, r0 as int, c0 as int, r as int, c as int, nrows as int, ncols as int),
{
    if r0 == r && c0 == c {
        return false;
    }
    if !(r0 <= r && c0 <= c) {
        return false;
    }
    let rend = row_span_end_at(cfg, r0, c0, nrows);
    let cend = col_span_end_at(cfg, r0, c0, ncols);
    r < rend && c < cend
}

/// The first covering column at row `r0` for the position `(r, c)`,
/// scanning from `c0` to the left edge of `c`.
pub open spec fn owner_in_row(
    cfg: GridConfig,
    r0: int,
    c0: int,
    r: int,
    c: int,
    nrows: int,
    ncols: int,
) -> Option<int>
    decreases c - c0 + 1,
{
    if c0 > c {
        None
    } else if covers_spec(cfg, r0, c0, r, c, nrows, ncols) {
        Some(c0)
    } else {
        owner_in_row(cfg, r0, c0 + 1, r, c, nrows, ncols)
    }
}

/// The first covering cell for the position `(r, c)`, scanning rows from
/// `r0` downward in row-major order.
pub open spec fn owner_from(
    cfg: GridConfig,
    r0: int,
    r: int,
    c: int,
    nrows: int,
    ncols: int,
) -> Option<(int, int)>
    decreases r - r0 + 1,
{
    if r0 > r {
        None
    } else {
        match owner_in_row(cfg, r0, 0, r, c, nrows, ncols) {
            Some(c0) => Some((r0, c0)),
            None => owner_from(cfg, r0 + 1, r, c, nrows, ncols),
        }
    }
}

/// Whether the position `(r, c)` is covered by another cell's span.
pub open spec fn is_covered_spec(cfg: GridConfig, r: int, c: int, nrows: int, ncols: int) -> bool {
    owner_from(cfg, 0, r, c, nrows, ncols) is Some
}

/// Finds the cell whose span covers `(r, c)`, if any.
pub fn owner_of(cfg: &GridConfig, r: usize, c: usize, nrows: usize, ncols: usize) -> (res: Option<
    (usize, usize),
>)
    requires
        r < nrows,
        c < ncols,
    ensures
        match res {
            Some(p) => owner_from(*cfg, 0, r as int, c as int, nrows as int, ncols as int) == Some(
                (p.0 as int, p.1 as int),
            ) && p.0 < nrows && p.1 < ncols && p.0 <= r && p.1 <= c,
            None => owner_from(*cfg, 0, r as int, c as int, nrows as int, ncols as int) is None,
        },
{
    let mut r0: usize = 0;
    while r0 <= r
        invariant
            r0 <= r + 1,
            r < nrows,
            c < ncols,
            owner_from(*cfg, 0, r as int, c as int, nrows as int, ncols as int) == owner_from(
                *cfg,
                r0 as int,
                r as int,
                c as int,
                nrows as int,
                ncols as int,
            ),
        decreases r + 1 - r0,
    {
        let mut c0: usize = 0;
        while c0 <= c
            invariant
                c0 <= c + 1,
                r0 <= r,
                r < nrows,
                c < ncols,
                owner_from(*cfg, 0, r as int, c as int, nrows as int, ncols as int) == owner_from(
                    *cfg,
                    r0 as int,
                    r as int,
                    c as int,
                    nrows as int,
                    ncols as int,
                ),
                owner_in_row(*cfg, r0 as int, 0, r as int, c as int, nrows as int, ncols as int)
                    == owner_in_row(
                    *cfg,
                    r0 as int,
                    c0 as int,
                    r as int,
                    c as int,
                    nrows as int,
                    ncols as int,
                ),
            decreases c + 1 - c0,
        {
            if covers(cfg, r0, c0, r, c, nrows, ncols) {
                proof {
                    assert(owner_in_row(
                        *cfg,
                        r0 as int,
                        c0 as int,
                        r as int,
                        c as int,
                        nrows as int,
                        ncols as int,
                    ) == Some(c0 as int));
                    assert(owner_from(
                        *cfg,
                        r0 as int,
                        r as int,
                        c as int,
                        nrows as int,
                        ncols as int,
                    ) == Some((r0 as int, c0 as int)));
                }
                return Some((r0, c0));
            }
            c0 = c0 + 1;
        }
        proof {
            assert(owner_in_row(
                *cfg,
                r0 as int,
                c0 as int,
                r as int,
                c as int,
                nrows as int,
                ncols as int,
            ) is None);
            assert(owner_from(*cfg, r0 as int, r as int, c as int, nrows as int, ncols as int)
                == owner_from(*cfg, r0 + 1, r as int, c as int, nrows as int, ncols as int));
        }
        r0 = r0 + 1;
    }
    None
}

/// The combined width of a block of columns `c0 .. cend`: their widths plus
/// one for every vertical grid line strictly inside the block.
pub open spec fn block_width_sum(
    cfg: GridConfig,
    widths: Seq<usize>,
    c0: int,
    cend: int,
    nrows: int,
    ncols: int,
) -> usize
    decreases cend - c0,
{
    if cend <= c0 {
        0
    } else if cend == c0 + 1 {
        widths[c0]
    } else {
        sadd(
            sadd(
                block_width_sum(cfg, widths, c0, cend - 1, nrows, ncols),
                if cfg.has_vertical_spec(cend - 1, nrows, ncols) {
                    1
                } else {
                    0
                },
            ),
            widths[cend - 1],
        )
    }
}

/// The combined height of a block of rows `r0 .. rend`: their heights plus
/// one for every horizontal grid line strictly inside the block.
pub open spec fn block_height_sum(
    cfg: GridConfig,
    heights: Seq<usize>,
    r0: int,
    rend: int,
    nrows: int,
    ncols: int,
) -> usize
    decreases rend - r0,
{
    if rend <= r0 {
        0
    } else if rend == r0 + 1 {
        heights[r0]
    } else {
        sadd(
            sadd(
                block_height_sum(cfg, heights, r0, rend - 1, nrows, ncols),
                if cfg.has_horizontal_spec(rend - 1, nrows, ncols) {
                    1
                } else {
                    0
                },
            ),
            heights[rend - 1],
        )
    }
}

/// Computes the combined width of the columns `c0 .. cend`.
pub fn block_width_sum_at(cfg: &GridConfig, widths: &Vec<usize>, c0: usize, cend: usize, nrows: usize, ncols: usize) -> (res: usize)
    requires
        c0 < cend,
        cend <= ncols,
        widths@.len() == ncols,
    ensures
        res == block_width_sum(*cfg, widths@, c0 as int, cend as int, nrows as int, ncols as int),
{
    let mut acc: usize = widths[c0];
    let mut i: usize = c0 + 1;
    while i < cend
        invariant
            c0 < i <= cend,
            cend <= ncols,
            widths@.len() == ncols,
            acc == block_width_sum(*cfg, widths@, c0 as int, i as int, nrows as int, ncols as int),
        decreases cend - i,
    {
        let line: usize = if cfg.has_vertical(i, nrows, ncols) {
            1
        } else {
            0
        };
        acc = usat_add(usat_add(acc, line), widths[i]);
        i = i + 1;
    }
    acc
}

/// Computes the combined height of the rows `r0 .. rend`.
pub fn block_height_sum_at(cfg: &GridConfig, heights: &Vec<usize>, r0: usize, rend: usize, nrows: usize, ncols: usize) -> (res: usize)
    requires
        r0 < rend,
        rend <= nrows,
        heights@.len() == nrows,
    ensures
        res == block_height_sum(*cfg, heights@, r0 as int, rend as int, nrows as int, ncols as int),
{
    let mut acc: usize = heights[r0];
    let mut i: usize = r0 + 1;
    while i < rend
        invariant
            r0 < i <= rend,
            rend <= nrows,
            heights@.len() == nrows,
            acc == block_height_sum(
                *cfg,
                heights@,
                r0 as int,
                i as int,
                nrows as int,
                ncols as int,
            ),
        decreases rend - i,
    {
        let line: usize = if cfg.has_horizontal(i, nrows, ncols) {
            1
        } else {
            0
        };
        acc = usat_add(usat_add(acc, line), heights[i]);
        i = i + 1;
    }
    acc
}

/// The base width of column `c`: the largest box width among the cells of
/// the rows `0 .. r` that sit alone in the column (no span, not covered).
pub open spec fn base_col_width(
    recs: Records,
    cfg: GridConfig,
    c: int,
    r: int,
    nrows: int,
    ncols: int,
) -> usize
    decreases r,
{
    if r <= 0 {
        0
    } else {
        let prev = base_col_width(recs, cfg, c, r - 1, nrows, ncols);
        if !is_covered_spec(cfg, r - 1, c, nrows, ncols) && cfg.span_column_spec(r - 1, c) is None {
            let w = box_width_spec(recs, cfg, r - 1, c);
            if w > prev {
                w
            } else {
                prev
            }
        } else {
            prev
        }
    }
}

/// The base widths of the columns `0 .. c`.
pub open spec fn base_widths(recs: Records, cfg: GridConfig, c: int, nrows: int, ncols: int) -> Seq<
    usize,
>
    decreases c,
{
    if c <= 0 {
        Seq::empty()
    } else {
        base_widths(recs, cfg, c - 1, nrows, ncols).push(
            base_col_width(recs, cfg, c - 1, nrows, nrows, ncols),
        )
    }
}

/// The base height of row `r`: the largest box height among the cells of
/// the columns `0 .. c` that sit alone in the row (no span, not covered).
pub open spec fn base_row_height(
    recs: Records,
    cfg: GridConfig,
    r: int,
    c: int,
    nrows: int,
    ncols: int,
) -> usize
    decreases c,
{
    if c <= 0 {
        0
    } else {
        let prev = base_row_height(recs, cfg, r, c - 1, nrows, ncols);
        if !is_covered_spec(cfg, r, c - 1, nrows, ncols) && cfg.span_row_spec(r, c - 1) is None {
            let h = box_height_spec(recs, cfg, r, c - 1);
            if h > prev {
                h
            } else {
                prev
            }
        } else {
            prev
        }
    }
}

/// The base heights of the rows `0 .. r`.
pub open spec fn base_heights(recs: Records, cfg: GridConfig, r: int, nrows: int, ncols: int) -> Seq<
    usize,
>
    decreases r,
{
    if r <= 0 {
        Seq::empty()
    } else {
        base_heights(recs, cfg, r - 1, nrows, ncols).push(
            base_row_height(recs, cfg, r - 1, ncols, nrows, ncols),
        )
    }
}

/// One span-settling step on the widths: if the cell at `(r, c)` owns a
/// column span whose block is narrower than the cell's box, the last
/// covered column grows by the shortfall.
pub open spec fn span_step_w(
    recs: Records,
    cfg: GridConfig,
    widths: Seq<usize>,
    r: int,
    c: int,
    nrows: int,
    ncols: int,
) -> Seq<usize> {
    if is_covered_spec(cfg, r, c, nrows, ncols) || cfg.span_column_spec(r, c) is None {
        widths
    } else {
        let cend = col_span_end(cfg, r, c, ncols);
        let need = box_width_spec(recs, cfg, r, c);
        let have = block_width_sum(cfg, widths, c, cend, nrows, ncols);
        if have >= need {
            widths
        } else {
            widths.update(cend - 1, sadd(widths[cend - 1], (need - have) as usize))
        }
    }
}

/// The widths after settling the spans of the cells `(r, c ..)`, then the
/// later rows.
pub open spec fn span_pass_row_w(
    recs: Records,
    cfg: GridConfig,
    widths: Seq<usize>,
    r: int,
    c: int,
    nrows: int,
    ncols: int,
) -> Seq<usize>
    decreases ncols - c,
{
    if c >= ncols {
        widths
    } else {
        span_pass_row_w(
            recs,
            cfg,
            span_step_w(recs, cfg, widths, r, c, nrows, ncols),
            r,
            c + 1,
            nrows,
            ncols,
        )
    }
}

/// The widths after settling the spans of the rows `r ..` in row-major
/// order.
pub open spec fn span_pass_w(
    recs: Records,
    cfg: GridConfig,
    widths: Seq<usize>,
    r: int,
    nrows: int,
    ncols: int,
) -> Seq<usize>
    decreases nrows - r,
{
    if r >= nrows {
        widths
    } else {
        span_pass_w(
            recs,
            cfg,
            span_pass_row_w(recs, cfg, widths, r, 0, nrows, ncols),
            r + 1,
            nrows,
            ncols,
        )
    }
}

/// One span-settling step on the heights, the analog of [`span_step_w`].
pub open spec fn span_step_h(
    recs: Records,
    cfg: GridConfig,
    heights: Seq<usize>,
    r: int,
    c: int,
    nrows: int,
    ncols: int,
) -> Seq<usize> {
    if is_covered_spec(cfg, r, c, nrows, ncols) || cfg.span_row_spec(r, c) is None {
        heights
    } else {
        let rend = row_span_end(cfg, r, c, nrows);
        let need = box_height_spec(recs, cfg, r, c);
        let have = block_height_sum(cfg, heights, r, rend, nrows, ncols);
        if have >= need {
            heights
        } else {
            heights.update(rend - 1, sadd(heights[rend - 1], (need - have) as usize))
        }
    }
}

/// The heights after settling the spans of the cells `(r, c ..)`, then the
/// later rows.
pub open spec fn span_pass_row_h(
    recs: Records,
    cfg: GridConfig,
    heights: Seq<usize>,
    r: int,
    c: int,
    nrows: int,
    ncols: int,
) -> Seq<usize>
    decreases ncols - c,
{
    if c >= ncols {
        heights
    } else {
        span_pass_row_h(
            recs,
            cfg,
            span_step_h(recs, cfg, heights, r, c, nrows, ncols),
            r,
            c + 1,
            nrows,
            ncols,
        )
    }
}

/// The heights after settling the spans of the rows `r ..` in row-major
/// order.
pub open spec fn span_pass_h(
    recs: Records,
    cfg: GridConfig,
    heights: Seq<usize>,
    r: int,
    nrows: int,
    ncols: int,
) -> Seq<usize>
    decreases nrows - r,
{
    if r >= nrows {
        heights
    } else {
        span_pass_h(
            recs,
            cfg,
            span_pass_row_h(recs, cfg, heights, r, 0, nrows, ncols),
            r + 1,
            nrows,
            ncols,
        )
    }
}

/// The estimated column widths of the whole grid.
pub open spec fn widths_spec(recs: Records, cfg: GridConfig) -> Seq<usize> {
    let nrows = recs.row_count_spec() as int;
    let ncols = recs.col_count_spec() as int;
    span_pass_w(recs, cfg, base_widths(recs, cfg, ncols, nrows, ncols), 0, nrows, ncols)
}

/// The estimated row heights of the whole grid.
pub open spec fn heights_spec(recs: Records, cfg: GridConfig) -> Seq<usize> {
    let nrows = recs.row_count_spec() as int;
    let ncols = recs.col_count_spec() as int;
    span_pass_h(recs, cfg, base_heights(recs, cfg, nrows, nrows, ncols), 0, nrows, ncols)
}

/// Estimates the column widths: for every lone cell its box fits its
/// column, and for every column-spanned cell its box fits the covered
/// block.
pub fn estimate_widths(recs: &Records, cfg: &GridConfig) -> (res: Vec<usize>)
    requires
        recs.wf(),
    ensures
        res@ == widths_spec(*recs, *cfg),
        res@.len() == recs.col_count_spec(),
{
    let nrows = recs.count_rows();
    let ncols = recs.count_columns();
    let mut widths: Vec<usize> = Vec::new();
    let mut c: usize = 0;
    proof {
        assert(widths@ =~= base_widths(*recs, *cfg, 0, nrows as int, ncols as int));
    }
    while c < ncols
        invariant
            c <= ncols,
            recs.wf(),
            nrows == recs.row_count_spec(),
            ncols == recs.col_count_spec(),
            widths@ == base_widths(*recs, *cfg, c as int, nrows as int, ncols as int),
            widths@.len() == c,
        decreases ncols - c,
    {
        let mut best: usize = 0;
        let mut r: usize = 0;
        while r < nrows
            invariant
                r <= nrows,
                c < ncols,
                recs.wf(),
                nrows == recs.row_count_spec(),
                ncols == recs.col_count_spec(),
                best == base_col_width(*recs, *cfg, c as int, r as int, nrows as int, ncols as int),
            decreases nrows - r,
        {
            let lone = owner_of(cfg, r, c, nrows, ncols).is_none() && cfg.get_span_column(
                r,
                c,
            ).is_none();
            if lone {
                let w = box_width(recs, cfg, r, c);
                if w > best {
                    best = w;
                }
            }
            r = r + 1;
        }
        widths.push(best);
        c = c + 1;
    }
    let ghost base = widths@;
    let mut r: usize = 0;
    while r < nrows
        invariant
            r <= nrows,
            recs.wf(),
            nrows == recs.row_count_spec(),
            ncols == recs.col_count_spec(),
            widths@.len() == ncols,
            span_pass_w(*recs, *cfg, base, 0, nrows as int, ncols as int) == span_pass_w(
                *recs,
                *cfg,
                widths@,
                r as int,
                nrows as int,
                ncols as int,
            ),
        decreases nrows - r,
    {
        let mut c: usize = 0;
        while c < ncols
            invariant
                c <= ncols,
                r < nrows,
                recs.wf(),
                nrows == recs.row_count_spec(),
                ncols == recs.col_count_spec(),
                widths@.len() == ncols,
                span_pass_w(*recs, *cfg, base, 0, nrows as int, ncols as int) == span_pass_w(
                    *recs,
                    *cfg,
                    span_pass_row_w(
                        *recs,
                        *cfg,
                        widths@,
                        r as int,
                        c as int,
                        nrows as int,
                        ncols as int,
                    ),
                    r + 1,
                    nrows as int,
                    ncols as int,
                ),
            decreases ncols - c,
        {
            let ghost w0 = widths@;
            let covered = owner_of(cfg, r, c, nrows, ncols).is_some();
            if !covered {
                if cfg.get_span_column(r, c).is_some() {
                    let cend = col_span_end_at(cfg, r, c, ncols);
                    let need = box_width(recs, cfg, r, c);
                    let have = block_width_sum_at(cfg, &widths, c, cend, nrows, ncols);
                    if have < need {
                        let grown = usat_add(widths[cend - 1], need - have);
                        widths[cend - 1] = grown;
                    }
                }
            }
            proof {
                assert(widths@ =~= span_step_w(
                    *recs,
                    *cfg,
                    w0,
                    r as int,
                    c as int,
                    nrows as int,
                    ncols as int,
                ));
            }
            c = c + 1;
        }
        r = r + 1;
    }
    widths
}

/// Estimates the row heights: for every lone cell its box fits its row,
/// and for every row-spanned cell its box fits the covered block.
pub fn estimate_heights(recs: &Records, cfg: &GridConfig) -> (res: Vec<usize>)
    requires
        recs.wf(),
    ensures
        res@ == heights_spec(*recs, *cfg),
        res@.len() == recs.row_count_spec(),
{
    let nrows = recs.count_rows();
    let ncols = recs.count_columns();
    let mut heights: Vec<usize> = Vec::new();
    let mut r: usize = 0;
    proof {
        assert(heights@ =~= base_heights(*recs, *cfg, 0, nrows as int, ncols as int));
    }
    while r < nrows
        invariant
            r <= nrows,
            recs.wf(),
            nrows == recs.row_count_spec(),
            ncols == recs.col_count_spec(),
            heights@ == base_heights(*recs, *cfg, r as int, nrows as int, ncols as int),
            heights@.len() == r,
        decreases nrows - r,
    {
        let mut best: usize = 0;
        let mut c: usize = 0;
        while c < ncols
            invariant
                c <= ncols,
                r < nrows,
                recs.wf(),
                nrows == recs.row_count_spec(),
                ncols == recs.col_count_spec(),
                best == base_row_height(
                    *recs,
                    *cfg,
                    r as int,
                    c as int,
                    nrows as int,
                    ncols as int,
                ),
            decreases ncols - c,
        {
            let lone = owner_of(cfg, r, c, nrows, ncols).is_none() && cfg.get_span_row(
                r,
                c,
            ).is_none();
            if lone {
                let h = box_height(recs, cfg, r, c);
                if h > best {
                    best = h;
                }
            }
            c = c + 1;
        }
        heights.push(best);
        r = r + 1;
    }
    let ghost base = heights@;
    let mut r: usize = 0;
    while r < nrows
        invariant
            r <= nrows,
            recs.wf(),
            nrows == recs.row_count_spec(),
            ncols == recs.col_count_spec(),
            heights@.len() == nrows,
            span_pass_h(*recs, *cfg, base, 0, nrows as int, ncols as int) == span_pass_h(
                *recs,
                *cfg,
                heights@,
                r as int,
                nrows as int,
                ncols as int,
            ),
        decreases nrows - r,
    {
        let mut c: usize = 0;
        while c < ncols
            invariant
                c <= ncols,
                r < nrows,
                recs.wf(),
                nrows == recs.row_count_spec(),
                ncols == recs.col_count_spec(),
                heights@.len() == nrows,
                span_pass_h(*recs, *cfg, base, 0, nrows as int, ncols as int) == span_pass_h(
                    *recs,
                    *cfg,
                    span_pass_row_h(
                        *recs,
                        *cfg,
                        heights@,
                        r as int,
                        c as int,
                        nrows as int,
                        ncols as int,
                    ),
                    r + 1,
                    nrows as int,
                    ncols as int,
                ),
            decreases ncols - c,
        {
            let ghost h0 = heights@;
            let covered = owner_of(cfg, r, c, nrows, ncols).is_some();
            if !covered {
                if cfg.get_span_row(r, c).is_some() {
                    let rend = row_span_end_at(cfg, r, c, nrows);
                    let need = box_height(recs, cfg, r, c);
                    let have = block_height_sum_at(cfg, &heights, r, rend, nrows, ncols);
                    if have < need {
                        let grown = usat_add(heights[rend - 1], need - have);
                        heights[rend - 1] = grown;
                    }
                }
            }
            proof {
                assert(heights@ =~= span_step_h(
                    *recs,
                    *cfg,
                    h0,
                    r as int,
                    c as int,
                    nrows as int,
                    ncols as int,
                ));
            }
            c = c + 1;
        }
        r = r + 1;
    }
    heights
}

/// The padding-only width of column `c`: the largest left-plus-right
/// padding among the rows `0 .. r`.  This is the width the column keeps
/// even with all content removed.
pub open spec fn min_col_width(cfg: GridConfig, c: int, r: int) -> usize
    decreases r,
{
    if r <= 0 {
        0
    } else {
        let prev = min_col_width(cfg, c, r - 1);
        let pad = cfg.padding_spec(r - 1, c);
        let w = sadd(pad.left.size, pad.right.size);
        if w > prev {
            w
        } else {
            prev
        }
    }
}

/// The padding-only widths of the columns `0 .. c`.
pub open spec fn min_widths_spec(cfg: GridConfig, c: int, nrows: int) -> Seq<usize>
    decreases c,
{
    if c <= 0 {
        Seq::empty()
    } else {
        min_widths_spec(cfg, c - 1, nrows).push(min_col_width(cfg, c - 1, nrows))
    }
}

/// Computes the padding-only width of every column: the floor below which
/// a width adjuster never shrinks a column.
pub fn estimate_min_widths(cfg: &GridConfig, nrows: usize, ncols: usize) -> (res: Vec<usize>)
    ensures
        res@ == min_widths_spec(*cfg, ncols as int, nrows as int),
        res@.len() == ncols,
{
    let mut out: Vec<usize> = Vec::new();
    let mut c: usize = 0;
    proof {
        assert(out@ =~= min_widths_spec(*cfg, 0, nrows as int));
    }
    while c < ncols
        invariant
            c <= ncols,
            out@ == min_widths_spec(*cfg, c as int, nrows as int),
            out@.len() == c,
        decreases ncols - c,
    {
        let mut best: usize = 0;
        let mut r: usize = 0;
        while r < nrows
            invariant
                r <= nrows,
                best == min_col_width(*cfg, c as int, r as int),
            decreases nrows - r,
        {
            let pad = cfg.get_padding(r, c);
            let w = usat_add(pad.left.size, pad.right.size);
            if w > best {
                best = w;
            }
            r = r + 1;
        }
        out.push(best);
        c = c + 1;
    }
    out
}

/// The number of vertical grid lines among the boundaries `0 .. i`.
pub open spec fn verticals_before(cfg: GridConfig, i: int, nrows: int, ncols: int) -> usize
    decreases i,
{
    if i <= 0 {
        0
    } else {
        sadd(
            verticals_before(cfg, i - 1, nrows, ncols),
            if cfg.has_vertical_spec(i - 1, nrows, ncols) {
                1
            } else {
                0
            },
        )
    }
}

/// The sum of the widths of the columns `0 .. c`.
pub open spec fn widths_sum(widths: Seq<usize>, c: int) -> usize
    decreases c,
{
    if c <= 0 {
        0
    } else {
        sadd(widths_sum(widths, c - 1), widths[c - 1])
    }
}

/// The total rendered width of the grid: every column width plus one for
/// every vertical grid line, the outer edges included.
pub open spec fn total_width_spec(cfg: GridConfig, widths: Seq<usize>, nrows: int, ncols: int) -> usize {
    sadd(widths_sum(widths, ncols), verticals_before(cfg, ncols + 1, nrows, ncols))
}

/// Computes the total rendered width of the grid.
pub fn total_width(cfg: &GridConfig, widths: &Vec<usize>, nrows: usize, ncols: usize) -> (res: usize)
    requires
        widths@.len() == ncols,
    ensures
        res == total_width_spec(*cfg, widths@, nrows as int, ncols as int),
{
    let mut sum: usize = 0;
    let mut c: usize = 0;
    while c < ncols
        invariant
            c <= ncols,
            widths@.len() == ncols,
            sum == widths_sum(widths@, c as int),
        decreases ncols - c,
    {
        sum = usat_add(sum, widths[c]);
        c = c + 1;
    }
    let mut verts: usize = 0;
    let mut i: usize = 0;
    while i < ncols
        invariant
            i <= ncols,
            verts == verticals_before(*cfg, i as int, nrows as int, ncols as int),
        decreases ncols - i,
    {
        let line: usize = if cfg.has_vertical(i, nrows, ncols) {
            1
        } else {
            0
        };
        verts = usat_add(verts, line);
        i = i + 1;
    }
    let last: usize = if cfg.has_vertical(ncols, nrows, ncols) {
        1
    } else {
        0
    };
    verts = usat_add(verts, last);
    usat_add(sum, verts)
}

} // verus!

