//! The grid renderer: turns records, configuration and final dimensions
//! into the output text.
//!
//! Every output line is built column by column: each column contributes
//! exactly its width in characters, and each vertical grid line that exists
//! contributes exactly one character, so every line of one table has the
//! same visual width.  A spanned cell's box is laid out once over its whole
//! block, and each covered column shows its slice of that block; the grid
//! lines interior to the block show the block's characters instead of
//! glyphs.  Colors bracket what they decorate and never count toward
//! widths.

use vstd::prelude::*;

use crate::config::AlignmentHorizontal;
use crate::config::AlignmentVertical;
use crate::config::ColorPair;
use crate::config::GridConfig;
use crate::estimate::block_height_sum;
use crate::estimate::block_height_sum_at;
use crate::estimate::block_width_sum;
use crate::estimate::block_width_sum_at;
use crate::estimate::cell_lines;
use crate::estimate::cell_lines_at;
use crate::estimate::col_span_end;
use crate::estimate::col_span_end_at;
use crate::estimate::max_line_width;
use crate::estimate::owner_from;
use crate::estimate::owner_of;
use crate::estimate::row_span_end;
use crate::estimate::row_span_end_at;
use crate::records::Records;
use crate::text::char_fill;
use crate::text::chars_vec;
use crate::text::cut_spec;
use crate::text::fill_chars;
use crate::text::lemma_char_fill_len;
use crate::text::push_fill;
use crate::text::sadd;
use crate::text::ssub;
use crate::text::string_from_chars;
use crate::text::usat_add;
use crate::text::usat_sub;
use crate::text::width_cap;

verus! {

/// `s` bracketed by the color's escape sequences, when one is set.
pub open spec fn wrap_color_spec(s: Seq<char>, color: Option<ColorPair>) -> Seq<char> {
    match color {
        Some(cp) => cp.prefix@ + s + cp.suffix@,
        None => s,
    }
}

/// `line` cut or space-padded to exactly `w` characters.
pub open spec fn pad_to_spec(line: Seq<char>, w: nat) -> Seq<char> {
    let cut = cut_spec(line, w);
    cut + char_fill((w - cut.len()) as nat, ' ')
}

pub proof fn lemma_pad_to_len(line: Seq<char>, w: nat)
    ensures
        pad_to_spec(line, w).len() == w,
{
    lemma_char_fill_len((w - cut_spec(line, w).len()) as nat, ' ');
}

/// Cuts or space-pads `line` to exactly `w` characters.
pub fn pad_to(line: Vec<char>, w: usize) -> (r: Vec<char>)
    ensures
        r@ == pad_to_spec(line@, w as nat),
        r@.len() == w,
{
    let mut out = line;
    if out.len() > w {
        out.truncate(w);
        proof {
            assert(out@ =~= pad_to_spec(line@, w as nat));
        }
    } else {
        let need = w - out.len();
        push_fill(&mut out, need, ' ');
    }
    proof {
        lemma_pad_to_len(line@, w as nat);
    }
    out
}

/// How many fill characters go before content of the given slack under a
/// horizontal alignment.
pub open spec fn halign_offset(a: AlignmentHorizontal, slack: int) -> int {
    match a {
        AlignmentHorizontal::Left => 0,
        AlignmentHorizontal::Center => slack / 2,
        AlignmentHorizontal::Right => slack,
    }
}

/// How many blank lines go above content of the given slack under a
/// vertical alignment.
pub open spec fn valign_offset(a: AlignmentVertical, slack: int) -> int {
    match a {
        AlignmentVertical::Top => 0,
        AlignmentVertical::Center => slack / 2,
        AlignmentVertical::Bottom => slack,
    }
}

/// The `j`-th aligned content line of a cell: line `j` aligned within the
/// content width `wc`; an index outside the content is all blank.  When
/// lines are aligned one by one each line gets its own slack; otherwise the
/// lines are first padded to the block of the widest line and the block is
/// aligned as a whole.
pub open spec fn aligned_content_line(
    lines: Seq<Seq<char>>,
    per_line: bool,
    a: AlignmentHorizontal,
    wc: nat,
    j: int,
) -> Seq<char> {
    if 0 <= j < lines.len() {
        if per_line {
            let cut = cut_spec(lines[j], wc);
            let off = halign_offset(a, wc - cut.len());
            char_fill(off as nat, ' ') + cut + char_fill((wc - cut.len() - off) as nat, ' ')
        } else {
            let b = if max_line_width(lines) > wc {
                wc
            } else {
                max_line_width(lines)
            };
            let blockline = pad_to_spec(lines[j], b);
            let off = halign_offset(a, wc - b);
            char_fill(off as nat, ' ') + blockline + char_fill((wc - b - off) as nat, ' ')
        }
    } else {
        char_fill(wc, ' ')
    }
}

pub proof fn lemma_halign_offset_bounds(a: AlignmentHorizontal, slack: int)
    requires
        slack >= 0,
    ensures
        0 <= halign_offset(a, slack) <= slack,
{
}

pub proof fn lemma_aligned_content_line_len(
    lines: Seq<Seq<char>>,
    per_line: bool,
    a: AlignmentHorizontal,
    wc: nat,
    j: int,
)
    ensures
        aligned_content_line(lines, per_line, a, wc, j).len() == wc,
{
    if 0 <= j < lines.len() {
        if per_line {
            let cut = cut_spec(lines[j], wc);
            lemma_halign_offset_bounds(a, wc - cut.len());
            let off = halign_offset(a, wc - cut.len());
            lemma_char_fill_len(off as nat, ' ');
            lemma_char_fill_len((wc - cut.len() - off) as nat, ' ');
        } else {
            let b = if max_line_width(lines) > wc {
                wc
            } else {
                max_line_width(lines)
            };
            lemma_pad_to_len(lines[j], b);
            lemma_halign_offset_bounds(a, wc - b);
            let off = halign_offset(a, wc - b);
            lemma_char_fill_len(off as nat, ' ');
            lemma_char_fill_len((wc - b - off) as nat, ' ');
        }
    } else {
        lemma_char_fill_len(wc, ' ');
    }
}

/// Computes the `j`-th aligned content line of a cell.
pub fn aligned_content_line_at(
    lines: &Vec<Vec<char>>,
    per_line: bool,
    a: AlignmentHorizontal,
    wc: usize,
    j: usize,
    in_range: bool,
) -> (r: Vec<char>)
    requires
        in_range <==> j < lines@.len(),
    ensures
        r@ == aligned_content_line(
            crate::text::lines_view(lines@),
            per_line,
            a,
            wc as nat,
            if in_range {
                j as int
            } else {
                lines@.len() as int
            },
        ),
        r@.len() == wc,
{
    let ghost lsv = crate::text::lines_view(lines@);
    proof {
        lemma_aligned_content_line_len(
            lsv,
            per_line,
            a,
            wc as nat,
            if in_range {
                j as int
            } else {
                lines@.len() as int
            },
        );
    }
    if !in_range {
        let r = fill_chars(wc, ' ');
        proof {
            assert(r@ =~= aligned_content_line(lsv, per_line, a, wc as nat, lines@.len() as int));
        }
        return r;
    }
    if per_line {
        let cut = crate::text::cut_chars(&lines[j], wc);
        proof {
            assert(lines@[j as int]@ == lsv[j as int]);
        }
        let slack = wc - cut.len();
        let off: usize = match a {
            AlignmentHorizontal::Left => 0,
            AlignmentHorizontal::Center => slack / 2,
            AlignmentHorizontal::Right => slack,
        };
        let mut out = fill_chars(off, ' ');
        let cutlen = cut.len();
        let mut cut2 = cut;
        out.append(&mut cut2);
        push_fill(&mut out, wc - (off + cutlen), ' ');
        proof {
            lemma_char_fill_len(off as nat, ' ');
            assert(out@ =~= aligned_content_line(lsv, per_line, a, wc as nat, j as int));
        }
        out
    } else {
        let maxw = crate::estimate::content_width(lines);
        let b: usize = if maxw > wc {
            wc
        } else {
            maxw
        };
        proof {
            assert(lines@[j as int]@ == lsv[j as int]);
            if max_line_width(lsv) > wc as nat {
                assert(b == wc);
                assert(b as nat == (if max_line_width(lsv) > wc as nat {
                    wc as nat
                } else {
                    max_line_width(lsv)
                }));
            } else {
                assert(width_cap(max_line_width(lsv)) == max_line_width(lsv));
            }
        }
        let line = lines[j].clone();
        proof {
            assert forall|t: int| 0 <= t < line@.len() implies line@[t] == lines@[j as int]@[t] by {
                assert(vstd::pervasive::cloned::<char>(lines@[j as int]@[t], line@[t]));
            }
            assert(line@ =~= lsv[j as int]);
        }
        let blockline = pad_to(line, b);
        let slack = wc - b;
        let off: usize = match a {
            AlignmentHorizontal::Left => 0,
            AlignmentHorizontal::Center => slack / 2,
            AlignmentHorizontal::Right => slack,
        };
        let mut out = fill_chars(off, ' ');
        let mut b2 = blockline;
        out.append(&mut b2);
        push_fill(&mut out, wc - (off + b), ' ');
        proof {
            lemma_char_fill_len(off as nat, ' ');
            assert(out@ =~= aligned_content_line(lsv, per_line, a, wc as nat, j as int));
        }
        out
    }
}

/// The glyph of the vertical line at boundary `i` beside row `row`: the
/// cell override to its right, else the one to its left, else the global
/// glyph for its position, else a space.
pub open spec fn vertical_glyph_spec(cfg: GridConfig, row: int, i: int, ncols: int) -> char {
    match (if i < ncols {
        cfg.cell_border_spec(row, i).left
    } else {
        None
    }) {
        Some(ch) => ch,
        None => match (if i > 0 {
            cfg.cell_border_spec(row, i - 1).right
        } else {
            None
        }) {
            Some(ch) => ch,
            None => match (if i == 0 {
                cfg.borders.vertical_left
            } else if i == ncols {
                cfg.borders.vertical_right
            } else {
                cfg.borders.vertical
            }) {
                Some(ch) => ch,
                None => ' ',
            },
        },
    }
}

/// Resolves the glyph of the vertical line at boundary `i` beside row
/// `row`.
pub fn vertical_glyph_at(cfg: &GridConfig, row: usize, i: usize, ncols: usize) -> (r: char)
    ensures
        r == vertical_glyph_spec(*cfg, row as int, i as int, ncols as int),
{
    if i < ncols {
        if let Some(ch) = cfg.get_border(row, i).left {
            return ch;
        }
    }
    if i > 0 {
        if let Some(ch) = cfg.get_border(row, i - 1).right {
            return ch;
        }
    }
    let g = if i == 0 {
        cfg.borders.vertical_left
    } else if i == ncols {
        cfg.borders.vertical_right
    } else {
        cfg.borders.vertical
    };
    match g {
        Some(ch) => ch,
        None => ' ',
    }
}

/// The glyph of the horizontal line at boundary `r` under column `c`.
pub open spec fn horizontal_glyph_spec(cfg: GridConfig, r: int, c: int, nrows: int) -> char {
    match (if r < nrows {
        cfg.cell_border_spec(r, c).top
    } else {
        None
    }) {
        Some(ch) => ch,
        None => match (if r > 0 {
            cfg.cell_border_spec(r - 1, c).bottom
        } else {
            None
        }) {
            Some(ch) => ch,
            None => match (if r == 0 {
                cfg.borders.top
            } else if r == nrows {
                cfg.borders.bottom
            } else {
                cfg.borders.horizontal
            }) {
                Some(ch) => ch,
                None => ' ',
            },
        },
    }
}

/// Resolves the glyph of the horizontal line at boundary `r` under column
/// `c`.
pub fn horizontal_glyph_at(cfg: &GridConfig, r: usize, c: usize, nrows: usize) -> (res: char)
    ensures
        res == horizontal_glyph_spec(*cfg, r as int, c as int, nrows as int),
{
    if r < nrows {
        if let Some(ch) = cfg.get_border(r, c).top {
            return ch;
        }
    }
    if r > 0 {
        if let Some(ch) = cfg.get_border(r - 1, c).bottom {
            return ch;
        }
    }
    let g = if r == 0 {
        cfg.borders.top
    } else if r == nrows {
        cfg.borders.bottom
    } else {
        cfg.borders.horizontal
    };
    match g {
        Some(ch) => ch,
        None => ' ',
    }
}

/// The glyph of the intersection at horizontal boundary `r` and vertical
/// boundary `i`: the corner overrides of the four adjacent cells, the
/// nearest below and to the right first, else the global glyph for the
/// position, else a space.
pub open spec fn intersection_glyph_spec(
    cfg: GridConfig,
    r: int,
    i: int,
    nrows: int,
    ncols: int,
) -> char {
    match (if r < nrows && i < ncols {
        cfg.cell_border_spec(r, i).left_top_corner
    } else {
        None
    }) {
        Some(ch) => ch,
        None => match (if r < nrows && i > 0 {
            cfg.cell_border_spec(r, i - 1).right_top_corner
        } else {
            None
        }) {
            Some(ch) => ch,
            None => match (if r > 0 && i < ncols {
                cfg.cell_border_spec(r - 1, i).left_bottom_corner
            } else {
                None
            }) {
                Some(ch) => ch,
                None => match (if r > 0 && i > 0 {
                    cfg.cell_border_spec(r - 1, i - 1).right_bottom_corner
                } else {
                    None
                }) {
                    Some(ch) => ch,
                    None => match (if r == 0 {
                        if i == 0 {
                            cfg.borders.top_left
                        } else if i == ncols {
                            cfg.borders.top_right
                        } else {
                            cfg.borders.top_intersection
                        }
                    } else if r == nrows {
                        if i == 0 {
                            cfg.borders.bottom_left
                        } else if i == ncols {
                            cfg.borders.bottom_right
                        } else {
                            cfg.borders.bottom_intersection
                        }
                    } else {
                        if i == 0 {
                            cfg.borders.horizontal_left
                        } else if i == ncols {
                            cfg.borders.horizontal_right
                        } else {
                            cfg.borders.intersection
                        }
                    }) {
                        Some(ch) => ch,
                        None => ' ',
                    },
                },
            },
        },
    }
}

/// Resolves the glyph of the intersection at boundaries `(r, i)`.
pub fn intersection_glyph_at(cfg: &GridConfig, r: usize, i: usize, nrows: usize, ncols: usize) -> (res: char)
    ensures
        res == intersection_glyph_spec(*cfg, r as int, i as int, nrows as int, ncols as int),
{
    if r < nrows && i < ncols {
        if let Some(ch) = cfg.get_border(r, i).left_top_corner {
            return ch;
        }
    }
    if r < nrows && i > 0 {
        if let Some(ch) = cfg.get_border(r, i - 1).right_top_corner {
            return ch;
        }
    }
    if r > 0 && i < ncols {
        if let Some(ch) = cfg.get_border(r - 1, i).left_bottom_corner {
            return ch;
        }
    }
    if r > 0 && i > 0 {
        if let Some(ch) = cfg.get_border(r - 1, i - 1).right_bottom_corner {
            return ch;
        }
    }
    let g = if r == 0 {
        if i == 0 {
            cfg.borders.top_left
        } else if i == ncols {
            cfg.borders.top_right
        } else {
            cfg.borders.top_intersection
        }
    } else if r == nrows {
        if i == 0 {
            cfg.borders.bottom_left
        } else if i == ncols {
            cfg.borders.bottom_right
        } else {
            cfg.borders.bottom_intersection
        }
    } else {
        if i == 0 {
            cfg.borders.horizontal_left
        } else if i == ncols {
            cfg.borders.horizontal_right
        } else {
            cfg.borders.intersection
        }
    };
    match g {
        Some(ch) => ch,
        None => ' ',
    }
}

/// The color of the vertical line at boundary `i` beside row `row`, from
/// the border color overrides of the adjacent cells.
pub open spec fn vertical_color_spec(cfg: GridConfig, row: int, i: int, ncols: int) -> Option<
    ColorPair,
> {
    match (if i < ncols {
        cfg.cell_border_color_spec(row, i).left
    } else {
        None
    }) {
        Some(cp) => Some(cp),
        None => if i > 0 {
            cfg.cell_border_color_spec(row, i - 1).right
        } else {
            None
        },
    }
}

/// Resolves the color of the vertical line at boundary `i` beside row
/// `row`.
pub fn vertical_color_at<'a>(cfg: &'a GridConfig, row: usize, i: usize, ncols: usize) -> (r:
    Option<&'a ColorPair>)
    ensures
        match r {
            Some(cp) => vertical_color_spec(*cfg, row as int, i as int, ncols as int) == Some(*cp),
            None => vertical_color_spec(*cfg, row as int, i as int, ncols as int) is None,
        },
{
    if i < ncols {
        if let Some(b) = crate::entity::find_in_cells(&cfg.border_colors, row, i) {
            if let Some(cp) = &b.left {
                return Some(cp);
            }
        }
    }
    if i > 0 {
        if let Some(b) = crate::entity::find_in_cells(&cfg.border_colors, row, i - 1) {
            if let Some(cp) = &b.right {
                return Some(cp);
            }
        }
    }
    None
}

/// The color of the horizontal line at boundary `r` under column `c`.
pub open spec fn horizontal_color_spec(cfg: GridConfig, r: int, c: int, nrows: int) -> Option<
    ColorPair,
> {
    match (if r < nrows {
        cfg.cell_border_color_spec(r, c).top
    } else {
        None
    }) {
        Some(cp) => Some(cp),
        None => if r > 0 {
            cfg.cell_border_color_spec(r - 1, c).bottom
        } else {
            None
        },
    }
}

/// Resolves the color of the horizontal line at boundary `r` under column
/// `c`.
pub fn horizontal_color_at<'a>(cfg: &'a GridConfig, r: usize, c: usize, nrows: usize) -> (res:
    Option<&'a ColorPair>)
    ensures
        match res {
            Some(cp) => horizontal_color_spec(*cfg, r as int, c as int, nrows as int) == Some(*cp),
            None => horizontal_color_spec(*cfg, r as int, c as int, nrows as int) is None,
        },
{
    if r < nrows {
        if let Some(b) = crate::entity::find_in_cells(&cfg.border_colors, r, c) {
            if let Some(cp) = &b.top {
                return Some(cp);
            }
        }
    }
    if r > 0 {
        if let Some(b) = crate::entity::find_in_cells(&cfg.border_colors, r - 1, c) {
            if let Some(cp) = &b.bottom {
                return Some(cp);
            }
        }
    }
    None
}

/// The color of the intersection at boundaries `(r, i)`.
pub open spec fn intersection_color_spec(
    cfg: GridConfig,
    r: int,
    i: int,
    nrows: int,
    ncols: int,
) -> Option<ColorPair> {
    match (if r < nrows && i < ncols {
        cfg.cell_border_color_spec(r, i).left_top_corner
    } else {
        None
    }) {
        Some(cp) => Some(cp),
        None => match (if r < nrows && i > 0 {
            cfg.cell_border_color_spec(r, i - 1).right_top_corner
        } else {
            None
        }) {
            Some(cp) => Some(cp),
            None => match (if r > 0 && i < ncols {
                cfg.cell_border_color_spec(r - 1, i).left_bottom_corner
            } else {
                None
            }) {
                Some(cp) => Some(cp),
                None => if r > 0 && i > 0 {
                    cfg.cell_border_color_spec(r - 1, i - 1).right_bottom_corner
                } else {
                    None
                },
            },
        },
    }
}

/// Resolves the color of the intersection at boundaries `(r, i)`.
pub fn intersection_color_at<'a>(
    cfg: &'a GridConfig,
    r: usize,
    i: usize,
    nrows: usize,
    ncols: usize,
) -> (res: Option<&'a ColorPair>)
    ensures
        match res {
            Some(cp) => intersection_color_spec(*cfg, r as int, i as int, nrows as int, ncols as int)
                == Some(*cp),
            None => intersection_color_spec(
                *cfg,
                r as int,
                i as int,
                nrows as int,
                ncols as int,
            ) is None,
        },
{
    if r < nrows && i < ncols {
        if let Some(b) = crate::entity::find_in_cells(&cfg.border_colors, r, i) {
            if let Some(cp) = &b.left_top_corner {
                return Some(cp);
            }
        }
    }
    if r < nrows && i > 0 {
        if let Some(b) = crate::entity::find_in_cells(&cfg.border_colors, r, i - 1) {
            if let Some(cp) = &b.right_top_corner {
                return Some(cp);
            }
        }
    }
    if r > 0 && i < ncols {
        if let Some(b) = crate::entity::find_in_cells(&cfg.border_colors, r - 1, i) {
            if let Some(cp) = &b.left_bottom_corner {
                return Some(cp);
            }
        }
    }
    if r > 0 && i > 0 {
        if let Some(b) = crate::entity::find_in_cells(&cfg.border_colors, r - 1, i - 1) {
            if let Some(cp) = &b.right_bottom_corner {
                return Some(cp);
            }
        }
    }
    None
}

/// The cell that governs the position `(r, c)`: the covering cell if the
/// position is inside another cell's span, else the position itself.
pub open spec fn owner_cell_spec(cfg: GridConfig, r: int, c: int, nrows: int, ncols: int) -> (
    int,
    int,
) {
    match owner_from(cfg, 0, r, c, nrows, ncols) {
        Some(p) => p,
        None => (r, c),
    }
}

/// Finds the cell that governs the position `(r, c)`.
pub fn owner_cell_at(cfg: &GridConfig, r: usize, c: usize, nrows: usize, ncols: usize) -> (res: (
    usize,
    usize,
))
    requires
        r < nrows,
        c < ncols,
    ensures
        (res.0 as int, res.1 as int) == owner_cell_spec(
            *cfg,
            r as int,
            c as int,
            nrows as int,
            ncols as int,
        ),
        res.0 < nrows,
        res.1 < ncols,
        res.0 <= r,
        res.1 <= c,
{
    match owner_of(cfg, r, c, nrows, ncols) {
        Some(p) => p,
        None => (r, c),
    }
}

/// The offset of column `c`'s characters within the line of the block that
/// starts at column `c0`: the widths of the earlier covered columns plus
/// one for every grid line between them.
pub open spec fn pos_in_block(
    cfg: GridConfig,
    widths: Seq<usize>,
    c0: int,
    c: int,
    nrows: int,
    ncols: int,
) -> usize
    decreases c - c0,
{
    if c <= c0 {
        0
    } else {
        sadd(
            sadd(pos_in_block(cfg, widths, c0, c - 1, nrows, ncols), widths[c - 1]),
            if cfg.has_vertical_spec(c, nrows, ncols) {
                1
            } else {
                0
            },
        )
    }
}

/// Computes the offset of column `c` within the block starting at `c0`.
pub fn pos_in_block_at(cfg: &GridConfig, widths: &Vec<usize>, c0: usize, c: usize, nrows: usize, ncols: usize) -> (res: usize)
    requires
        c0 <= c,
        c <= ncols,
        widths@.len() == ncols,
    ensures
        res == pos_in_block(*cfg, widths@, c0 as int, c as int, nrows as int, ncols as int),
{
    let mut acc: usize = 0;
    let mut i: usize = c0;
    while i < c
        invariant
            c0 <= i <= c,
            c <= ncols,
            widths@.len() == ncols,
            acc == pos_in_block(*cfg, widths@, c0 as int, i as int, nrows as int, ncols as int),
        decreases c - i,
    {
        let line: usize = if cfg.has_vertical(i + 1, nrows, ncols) {
            1
        } else {
            0
        };
        acc = usat_add(usat_add(acc, widths[i]), line);
        i = i + 1;
    }
    acc
}

/// One character of a block line, a space past its end.
pub open spec fn block_char_spec(b: Seq<char>, idx: usize) -> char {
    if idx < b.len() {
        b[idx as int]
    } else {
        ' '
    }
}

/// The slice of `b` that starts at `pos`, cut or padded to exactly `w`
/// characters.
pub open spec fn slice_padded_spec(b: Seq<char>, pos: usize, w: usize) -> Seq<char> {
    let start = if pos > b.len() {
        b.len() as int
    } else {
        pos as int
    };
    pad_to_spec(b.skip(start), w as nat)
}

/// Extracts the slice of `b` starting at `pos`, exactly `w` characters.
pub fn slice_padded(b: &Vec<char>, pos: usize, w: usize) -> (r: Vec<char>)
    ensures
        r@ == slice_padded_spec(b@, pos, w),
        r@.len() == w,
{
    let start: usize = if pos > b.len() {
        b.len()
    } else {
        pos
    };
    let mut out: Vec<char> = Vec::new();
    let mut i: usize = start;
    let end: usize = if b.len() - start > w {
        start + w
    } else {
        b.len()
    };
    while i < end
        invariant
            start <= i <= end <= b@.len(),
            end - start <= w,
            out@ == b@.skip(start as int).take(i - start),
        decreases end - i,
    {
        out.push(b[i]);
        proof {
            assert(out@ =~= b@.skip(start as int).take(i + 1 - start));
        }
        i = i + 1;
    }
    push_fill(&mut out, w - (end - start), ' ');
    proof {
        let tail = b@.skip(start as int);
        let cut = cut_spec(tail, w as nat);
        assert(cut =~= tail.take(end - start));
        assert(out@ =~= pad_to_spec(tail, w as nat));
        lemma_pad_to_len(tail, w as nat);
    }
    out
}

/// The index of the first line of row `r` within the block of lines of a
/// cell whose block starts at row `r0`: the heights of the rows before it
/// plus one for every horizontal grid line crossed.
pub open spec fn lines_above(
    cfg: GridConfig,
    heights: Seq<usize>,
    r0: int,
    r: int,
    nrows: int,
    ncols: int,
) -> usize
    decreases r - r0,
{
    if r <= r0 {
        0
    } else {
        sadd(
            sadd(lines_above(cfg, heights, r0, r - 1, nrows, ncols), heights[r - 1]),
            if cfg.has_horizontal_spec(r, nrows, ncols) {
                1
            } else {
                0
            },
        )
    }
}

/// Computes the block-local index of the first line of row `r`.
pub fn lines_above_at(cfg: &GridConfig, heights: &Vec<usize>, r0: usize, r: usize, nrows: usize, ncols: usize) -> (res: usize)
    requires
        r0 <= r,
        r <= nrows,
        heights@.len() == nrows,
    ensures
        res == lines_above(*cfg, heights@, r0 as int, r as int, nrows as int, ncols as int),
{
    let mut acc: usize = 0;
    let mut i: usize = r0;
    while i < r
        invariant
            r0 <= i <= r,
            r <= nrows,
            heights@.len() == nrows,
            acc == lines_above(*cfg, heights@, r0 as int, i as int, nrows as int, ncols as int),
        decreases r - i,
    {
        let line: usize = if cfg.has_horizontal(i + 1, nrows, ncols) {
            1
        } else {
            0
        };
        acc = usat_add(usat_add(acc, heights[i]), line);
        i = i + 1;
    }
    acc
}

/// The line of the box of the cell at `(r0, c0)` with block-local index
/// `l`: padding above and below, and the aligned content between, every
/// line exactly as wide as the cell's whole block.
pub open spec fn block_line_spec(
    recs: Records,
    cfg: GridConfig,
    widths: Seq<usize>,
    heights: Seq<usize>,
    r0: int,
    c0: int,
    l: int,
    nrows: int,
    ncols: int,
) -> Seq<char> {
    let cend = col_span_end(cfg, r0, c0, ncols);
    let rend = row_span_end(cfg, r0, c0, nrows);
    let w_total = block_width_sum(cfg, widths, c0, cend, nrows, ncols);
    let h_total = block_height_sum(cfg, heights, r0, rend, nrows, ncols);
    let pad = cfg.padding_spec(r0, c0);
    let wc = ssub(ssub(w_total, pad.left.size), pad.right.size);
    let hc = ssub(ssub(h_total, pad.top.size), pad.bottom.size);
    let lines = cell_lines_at(recs, cfg, r0, c0);
    let fmt = cfg.formatting_spec(r0, c0);
    let raw = if l < pad.top.size {
        char_fill(pad.left.size as nat, pad.left.fill) + char_fill(wc as nat, pad.top.fill)
            + char_fill(pad.right.size as nat, pad.right.fill)
    } else if l - pad.top.size < hc {
        let voff = if lines.len() >= hc as nat {
            0
        } else {
            valign_offset(cfg.alignment_v_spec(r0, c0), hc - lines.len())
        };
        let j = l - pad.top.size - voff;
        char_fill(pad.left.size as nat, pad.left.fill) + aligned_content_line(
            lines,
            fmt.allow_lines_alignment,
            cfg.alignment_h_spec(r0, c0),
            wc as nat,
            j,
        ) + char_fill(pad.right.size as nat, pad.right.fill)
    } else {
        char_fill(pad.left.size as nat, pad.left.fill) + char_fill(wc as nat, pad.bottom.fill)
            + char_fill(pad.right.size as nat, pad.right.fill)
    };
    pad_to_spec(raw, w_total as nat)
}

/// Builds the block-local line `l` of the box of the cell at `(r0, c0)`.
pub fn block_line_at(
    recs: &Records,
    cfg: &GridConfig,
    widths: &Vec<usize>,
    heights: &Vec<usize>,
    r0: usize,
    c0: usize,
    l: usize,
    nrows: usize,
    ncols: usize,
) -> (res: Vec<char>)
    requires
        recs.wf(),
        nrows == recs.row_count_spec(),
        ncols == recs.col_count_spec(),
        r0 < nrows,
        c0 < ncols,
        widths@.len() == ncols,
        heights@.len() == nrows,
    ensures
        res@ == block_line_spec(
            *recs,
            *cfg,
            widths@,
            heights@,
            r0 as int,
            c0 as int,
            l as int,
            nrows as int,
            ncols as int,
        ),
        res@.len() == block_width_sum(
            *cfg,
            widths@,
            c0 as int,
            col_span_end(*cfg, r0 as int, c0 as int, ncols as int),
            nrows as int,
            ncols as int,
        ),
{
    let cend = col_span_end_at(cfg, r0, c0, ncols);
    let rend = row_span_end_at(cfg, r0, c0, nrows);
    let w_total = block_width_sum_at(cfg, widths, c0, cend, nrows, ncols);
    let h_total = block_height_sum_at(cfg, heights, r0, rend, nrows, ncols);
    let pad = cfg.get_padding(r0, c0);
    let wc = usat_sub(usat_sub(w_total, pad.left.size), pad.right.size);
    let hc = usat_sub(usat_sub(h_total, pad.top.size), pad.bottom.size);
    let fmt = cfg.get_formatting(r0, c0);
    let lines = cell_lines(recs.get(r0, c0), fmt, cfg.get_tab_width());
    let ghost lsv = crate::text::lines_view(lines@);
    let mut raw: Vec<char>;
    if l < pad.top.size {
        raw = fill_chars(pad.left.size, pad.left.fill);
        push_fill(&mut raw, wc, pad.top.fill);
        push_fill(&mut raw, pad.right.size, pad.right.fill);
    } else if l - pad.top.size < hc {
        let av = cfg.get_alignment_vertical(r0, c0);
        let voff: usize = if lines.len() >= hc {
            0
        } else {
            match av {
                AlignmentVertical::Top => 0,
                AlignmentVertical::Center => (hc - lines.len()) / 2,
                AlignmentVertical::Bottom => hc - lines.len(),
            }
        };
        let rel = l - pad.top.size;
        let in_range = rel >= voff && rel - voff < lines.len();
        let j: usize = if in_range {
            rel - voff
        } else {
            0
        };
        let ah = cfg.get_alignment_horizontal(r0, c0);
        let content = aligned_content_line_at(
            &lines,
            fmt.allow_lines_alignment,
            ah,
            wc,
            if in_range {
                j
            } else {
                lines.len()
            },
            in_range,
        );
        proof {
            let sj = l - pad.top.size - (if lsv.len() >= hc as nat {
                0int
            } else {
                valign_offset(cfg.alignment_v_spec(r0 as int, c0 as int), hc - lsv.len())
            });
            if in_range {
                assert(sj == j);
            } else {
                assert(!(0 <= sj < lsv.len()));
                assert(aligned_content_line(
                    lsv,
                    fmt.allow_lines_alignment,
                    ah,
                    wc as nat,
                    lsv.len() as int,
                ) =~= aligned_content_line(lsv, fmt.allow_lines_alignment, ah, wc as nat, sj));
            }
        }
        raw = fill_chars(pad.left.size, pad.left.fill);
        let mut content2 = content;
        raw.append(&mut content2);
        push_fill(&mut raw, pad.right.size, pad.right.fill);
    } else {
        raw = fill_chars(pad.left.size, pad.left.fill);
        push_fill(&mut raw, wc, pad.bottom.fill);
        push_fill(&mut raw, pad.right.size, pad.right.fill);
    }
    let res = pad_to(raw, w_total);
    proof {
        assert(res@ =~= block_line_spec(
            *recs,
            *cfg,
            widths@,
            heights@,
            r0 as int,
            c0 as int,
            l as int,
            nrows as int,
            ncols as int,
        ));
    }
    res
}

/// Every line of a cell's block is exactly as wide as the block itself.
pub proof fn lemma_block_line_is_padded(
    recs: Records,
    cfg: GridConfig,
    widths: Seq<usize>,
    heights: Seq<usize>,
    r0: int,
    c0: int,
    l: int,
    nrows: int,
    ncols: int,
)
    ensures
        block_line_spec(recs, cfg, widths, heights, r0, c0, l, nrows, ncols).len()
            == block_width_sum(cfg, widths, c0, col_span_end(cfg, r0, c0, ncols), nrows, ncols),
{
    let cend = col_span_end(cfg, r0, c0, ncols);
    let w_total = block_width_sum(cfg, widths, c0, cend, nrows, ncols);
    assert forall|x: Seq<char>| (#[trigger] pad_to_spec(x, w_total as nat)).len() == w_total by {
        lemma_pad_to_len(x, w_total as nat);
    }
}

/// An optional borrowed color as an optional value.
pub open spec fn deref_color(c: Option<&ColorPair>) -> Option<ColorPair> {
    match c {
        Some(cp) => Some(*cp),
        None => None,
    }
}

/// Appends one character bracketed by a color.
pub fn push_wrapped_char(out: &mut Vec<char>, ch: char, color: Option<&ColorPair>)
    ensures
        final(out)@ == old(out)@ + wrap_color_spec(seq![ch], deref_color(color)),
{
    match color {
        Some(cp) => {
            let mut pre = chars_vec(cp.prefix.as_str());
            out.append(&mut pre);
            out.push(ch);
            let mut suf = chars_vec(cp.suffix.as_str());
            out.append(&mut suf);
            proof {
                assert(out@ =~= old(out)@ + wrap_color_spec(seq![ch], deref_color(color)));
            }
        },
        None => {
            out.push(ch);
            proof {
                assert(out@ =~= old(out)@ + wrap_color_spec(seq![ch], deref_color(color)));
            }
        },
    }
}

/// Appends a piece of text bracketed by a color.
pub fn push_wrapped(out: &mut Vec<char>, piece: &Vec<char>, color: Option<&ColorPair>)
    ensures
        final(out)@ == old(out)@ + wrap_color_spec(piece@, deref_color(color)),
{
    match color {
        Some(cp) => {
            let mut pre = chars_vec(cp.prefix.as_str());
            out.append(&mut pre);
            let mut mid = chars_vec_copy(piece);
            out.append(&mut mid);
            let mut suf = chars_vec(cp.suffix.as_str());
            out.append(&mut suf);
            proof {
                assert(out@ =~= old(out)@ + wrap_color_spec(piece@, deref_color(color)));
            }
        },
        None => {
            let mut mid = chars_vec_copy(piece);
            out.append(&mut mid);
            proof {
                assert(out@ =~= old(out)@ + wrap_color_spec(piece@, deref_color(color)));
            }
        },
    }
}

/// Copies a character vector.
pub fn chars_vec_copy(v: &Vec<char>) -> (r: Vec<char>)
    ensures
        r@ == v@,
{
    let mut out: Vec<char> = Vec::new();
    let mut i: usize = 0;
    while i < v.len()
        invariant
            i <= v@.len(),
            out@ == v@.take(i as int),
        decreases v@.len() - i,
    {
        out.push(v[i]);
        proof {
            assert(out@ =~= v@.take(i + 1));
        }
        i = i + 1;
    }
    proof {
        assert(v@.take(v@.len() as int) =~= v@);
    }
    out
}

/// The block-local index of content line `k` of row `r` within the block
/// of an owner starting at row `r0`.
pub open spec fn content_local_line(
    cfg: GridConfig,
    heights: Seq<usize>,
    r0: int,
    r: int,
    k: usize,
    nrows: int,
    ncols: int,
) -> usize {
    sadd(lines_above(cfg, heights, r0, r, nrows, ncols), k)
}

/// The block-local index of the separator line at boundary `r` within the
/// block of an owner starting at row `r0`.
pub open spec fn sep_local_line(
    cfg: GridConfig,
    heights: Seq<usize>,
    r0: int,
    r: int,
    nrows: int,
    ncols: int,
) -> usize {
    ssub(lines_above(cfg, heights, r0, r, nrows, ncols), 1)
}

/// Whether the position `(r, c)` continues a row-span block across the
/// horizontal boundary `r`.
pub open spec fn crossing_spec(cfg: GridConfig, r: int, c: int, nrows: int, ncols: int) -> bool {
    0 < r < nrows && owner_cell_spec(cfg, r, c, nrows, ncols).0 < r
}

/// Whether the position `(r, c)` continues a row-span block across the
/// boundary `r`.
pub fn crossing_at(cfg: &GridConfig, r: usize, c: usize, nrows: usize, ncols: usize) -> (res: bool)
    requires
        c < ncols,
    ensures
        res == crossing_spec(*cfg, r as int, c as int, nrows as int, ncols as int),
{
    if r == 0 || r >= nrows {
        return false;
    }
    let o = owner_cell_at(cfg, r, c, nrows, ncols);
    o.0 < r
}

/// What the vertical boundary `i` shows on content line `k` of row `r`:
/// nothing if the line does not exist, the block's own character if the
/// boundary runs inside a spanned block, else the resolved glyph.
pub open spec fn content_boundary_part(
    recs: Records,
    cfg: GridConfig,
    widths: Seq<usize>,
    heights: Seq<usize>,
    r: int,
    k: usize,
    i: int,
    nrows: int,
    ncols: int,
) -> Seq<char> {
    if !cfg.has_vertical_spec(i, nrows, ncols) {
        Seq::empty()
    } else if 0 < i < ncols && owner_cell_spec(cfg, r, i - 1, nrows, ncols) == owner_cell_spec(
        cfg,
        r,
        i,
        nrows,
        ncols,
    ) {
        let o = owner_cell_spec(cfg, r, i, nrows, ncols);
        let b = block_line_spec(
            recs,
            cfg,
            widths,
            heights,
            o.0,
            o.1,
            content_local_line(cfg, heights, o.0, r, k, nrows, ncols) as int,
            nrows,
            ncols,
        );
        wrap_color_spec(
            seq![block_char_spec(b, ssub(pos_in_block(cfg, widths, o.1, i, nrows, ncols), 1))],
            cfg.text_color_spec(o.0, o.1),
        )
    } else {
        wrap_color_spec(
            seq![vertical_glyph_spec(cfg, r, i, ncols)],
            vertical_color_spec(cfg, r, i, ncols),
        )
    }
}

/// What column `c` shows on content line `k` of row `r`: its slice of the
/// governing cell's block line, colored as the cell asks.
pub open spec fn content_column_part(
    recs: Records,
    cfg: GridConfig,
    widths: Seq<usize>,
    heights: Seq<usize>,
    r: int,
    k: usize,
    c: int,
    nrows: int,
    ncols: int,
) -> Seq<char> {
    let o = owner_cell_spec(cfg, r, c, nrows, ncols);
    let b = block_line_spec(
        recs,
        cfg,
        widths,
        heights,
        o.0,
        o.1,
        content_local_line(cfg, heights, o.0, r, k, nrows, ncols) as int,
        nrows,
        ncols,
    );
    wrap_color_spec(
        slice_padded_spec(b, pos_in_block(cfg, widths, o.1, c, nrows, ncols), widths[c]),
        cfg.text_color_spec(o.0, o.1),
    )
}

/// The prefix of content line `k` of row `r` up to (not including) column
/// `c`.
pub open spec fn content_line_upto(
    recs: Records,
    cfg: GridConfig,
    widths: Seq<usize>,
    heights: Seq<usize>,
    r: int,
    k: usize,
    c: int,
    nrows: int,
    ncols: int,
) -> Seq<char>
    decreases c,
{
    if c <= 0 {
        Seq::empty()
    } else {
        content_line_upto(recs, cfg, widths, heights, r, k, c - 1, nrows, ncols)
            + content_boundary_part(recs, cfg, widths, heights, r, k, c - 1, nrows, ncols)
            + content_column_part(recs, cfg, widths, heights, r, k, c - 1, nrows, ncols)
    }
}

/// Content line `k` of row `r`, margins not included.
pub open spec fn content_line_spec(
    recs: Records,
    cfg: GridConfig,
    widths: Seq<usize>,
    heights: Seq<usize>,
    r: int,
    k: usize,
    nrows: int,
    ncols: int,
) -> Seq<char> {
    content_line_upto(recs, cfg, widths, heights, r, k, ncols, nrows, ncols)
        + content_boundary_part(recs, cfg, widths, heights, r, k, ncols, nrows, ncols)
}

/// What column `c` shows on the separator line at boundary `r`: the
/// continuation of a row-span block that crosses the boundary, else the
/// horizontal glyph repeated over the column's width.
pub open spec fn sep_column_part(
    recs: Records,
    cfg: GridConfig,
    widths: Seq<usize>,
    heights: Seq<usize>,
    r: int,
    c: int,
    nrows: int,
    ncols: int,
) -> Seq<char> {
    if crossing_spec(cfg, r, c, nrows, ncols) {
        let o = owner_cell_spec(cfg, r, c, nrows, ncols);
        let b = block_line_spec(
            recs,
            cfg,
            widths,
            heights,
            o.0,
            o.1,
            sep_local_line(cfg, heights, o.0, r, nrows, ncols) as int,
            nrows,
            ncols,
        );
        wrap_color_spec(
            slice_padded_spec(b, pos_in_block(cfg, widths, o.1, c, nrows, ncols), widths[c]),
            cfg.text_color_spec(o.0, o.1),
        )
    } else {
        wrap_color_spec(
            char_fill(widths[c] as nat, horizontal_glyph_spec(cfg, r, c, nrows)),
            horizontal_color_spec(cfg, r, c, nrows),
        )
    }
}

/// What the vertical boundary `i` shows on the separator line at boundary
/// `r`: nothing if the line does not exist; the block's character inside a
/// crossing block; a vertical glyph beside one; else the intersection
/// glyph.
pub open spec fn sep_boundary_part(
    recs: Records,
    cfg: GridConfig,
    widths: Seq<usize>,
    heights: Seq<usize>,
    r: int,
    i: int,
    nrows: int,
    ncols: int,
) -> Seq<char> {
    if !cfg.has_vertical_spec(i, nrows, ncols) {
        Seq::empty()
    } else if 0 < i < ncols && crossing_spec(cfg, r, i - 1, nrows, ncols) && crossing_spec(
        cfg,
        r,
        i,
        nrows,
        ncols,
    ) && owner_cell_spec(cfg, r, i - 1, nrows, ncols) == owner_cell_spec(cfg, r, i, nrows, ncols) {
        let o = owner_cell_spec(cfg, r, i, nrows, ncols);
        let b = block_line_spec(
            recs,
            cfg,
            widths,
            heights,
            o.0,
            o.1,
            sep_local_line(cfg, heights, o.0, r, nrows, ncols) as int,
            nrows,
            ncols,
        );
        wrap_color_spec(
            seq![block_char_spec(b, ssub(pos_in_block(cfg, widths, o.1, i, nrows, ncols), 1))],
            cfg.text_color_spec(o.0, o.1),
        )
    } else if (i > 0 && crossing_spec(cfg, r, i - 1, nrows, ncols)) || (i < ncols && crossing_spec(
        cfg,
        r,
        i,
        nrows,
        ncols,
    )) {
        wrap_color_spec(
            seq![vertical_glyph_spec(cfg, r, i, ncols)],
            vertical_color_spec(cfg, r, i, ncols),
        )
    } else {
        wrap_color_spec(
            seq![intersection_glyph_spec(cfg, r, i, nrows, ncols)],
            intersection_color_spec(cfg, r, i, nrows, ncols),
        )
    }
}

/// The prefix of the separator line at boundary `r` up to column `c`.
pub open spec fn sep_line_upto(
    recs: Records,
    cfg: GridConfig,
    widths: Seq<usize>,
    heights: Seq<usize>,
    r: int,
    c: int,
    nrows: int,
    ncols: int,
) -> Seq<char>
    decreases c,
{
    if c <= 0 {
        Seq::empty()
    } else {
        sep_line_upto(recs, cfg, widths, heights, r, c - 1, nrows, ncols) + sep_boundary_part(
            recs,
            cfg,
            widths,
            heights,
            r,
            c - 1,
            nrows,
            ncols,
        ) + sep_column_part(recs, cfg, widths, heights, r, c - 1, nrows, ncols)
    }
}

/// The separator line at boundary `r`, margins not included.
pub open spec fn sep_line_spec(
    recs: Records,
    cfg: GridConfig,
    widths: Seq<usize>,
    heights: Seq<usize>,
    r: int,
    nrows: int,
    ncols: int,
) -> Seq<char> {
    sep_line_upto(recs, cfg, widths, heights, r, ncols, nrows, ncols) + sep_boundary_part(
        recs,
        cfg,
        widths,
        heights,
        r,
        ncols,
        nrows,
        ncols,
    )
}

/// Appends what the vertical boundary `i` shows on content line `k` of row
/// `r`.
fn push_content_boundary(
    out: &mut Vec<char>,
    recs: &Records,
    cfg: &GridConfig,
    widths: &Vec<usize>,
    heights: &Vec<usize>,
    r: usize,
    k: usize,
    i: usize,
    nrows: usize,
    ncols: usize,
)
    requires
        recs.wf(),
        nrows == recs.row_count_spec(),
        ncols == recs.col_count_spec(),
        r < nrows,
        i <= ncols,
        widths@.len() == ncols,
        heights@.len() == nrows,
    ensures
        final(out)@ == old(out)@ + content_boundary_part(
            *recs,
            *cfg,
            widths@,
            heights@,
            r as int,
            k,
            i as int,
            nrows as int,
            ncols as int,
        ),
{
    if !cfg.has_vertical(i, nrows, ncols) {
        proof {
            assert(out@ =~= old(out)@ + Seq::<char>::empty());
        }
        return ;
    }
    if i > 0 && i < ncols {
        let o1 = owner_cell_at(cfg, r, i - 1, nrows, ncols);
        let o2 = owner_cell_at(cfg, r, i, nrows, ncols);
        if o1.0 == o2.0 && o1.1 == o2.1 {
            let o = o2;
            let local = usat_add(lines_above_at(cfg, heights, o.0, r, nrows, ncols), k);
            let b = block_line_at(recs, cfg, widths, heights, o.0, o.1, local, nrows, ncols);
            let pos = pos_in_block_at(cfg, widths, o.1, i, nrows, ncols);
            let idx = usat_sub(pos, 1);
            let ch: char = if idx < b.len() {
                b[idx]
            } else {
                ' '
            };
            let color = match cfg.get_text_color(o.0, o.1) {
                Some(cp) => Some(cp),
                None => None,
            };
            push_wrapped_char(out, ch, color);
            return ;
        }
    }
    let g = vertical_glyph_at(cfg, r, i, ncols);
    let color = vertical_color_at(cfg, r, i, ncols);
    push_wrapped_char(out, g, color);
}

/// Appends what column `c` shows on content line `k` of row `r`.
fn push_content_column(
    out: &mut Vec<char>,
    recs: &Records,
    cfg: &GridConfig,
    widths: &Vec<usize>,
    heights: &Vec<usize>,
    r: usize,
    k: usize,
    c: usize,
    nrows: usize,
    ncols: usize,
)
    requires
        recs.wf(),
        nrows == recs.row_count_spec(),
        ncols == recs.col_count_spec(),
        r < nrows,
        c < ncols,
        widths@.len() == ncols,
        heights@.len() == nrows,
    ensures
        final(out)@ == old(out)@ + content_column_part(
            *recs,
            *cfg,
            widths@,
            heights@,
            r as int,
            k,
            c as int,
            nrows as int,
            ncols as int,
        ),
{
    let o = owner_cell_at(cfg, r, c, nrows, ncols);
    let local = usat_add(lines_above_at(cfg, heights, o.0, r, nrows, ncols), k);
    let b = block_line_at(recs, cfg, widths, heights, o.0, o.1, local, nrows, ncols);
    let pos = pos_in_block_at(cfg, widths, o.1, c, nrows, ncols);
    let sl = slice_padded(&b, pos, widths[c]);
    let color = match cfg.get_text_color(o.0, o.1) {
        Some(cp) => Some(cp),
        None => None,
    };
    push_wrapped(out, &sl, color);
}

/// Builds content line `k` of row `r`.
fn build_content_line(
    recs: &Records,
    cfg: &GridConfig,
    widths: &Vec<usize>,
    heights: &Vec<usize>,
    r: usize,
    k: usize,
    nrows: usize,
    ncols: usize,
) -> (res: Vec<char>)
    requires
        recs.wf(),
        nrows == recs.row_count_spec(),
        ncols == recs.col_count_spec(),
        r < nrows,
        widths@.len() == ncols,
        heights@.len() == nrows,
    ensures
        res@ == content_line_spec(
            *recs,
            *cfg,
            widths@,
            heights@,
            r as int,
            k,
            nrows as int,
            ncols as int,
        ),
{
    let mut out: Vec<char> = Vec::new();
    let mut c: usize = 0;
    proof {
        assert(out@ =~= content_line_upto(
            *recs,
            *cfg,
            widths@,
            heights@,
            r as int,
            k,
            0,
            nrows as int,
            ncols as int,
        ));
    }
    while c < ncols
        invariant
            c <= ncols,
            recs.wf(),
            nrows == recs.row_count_spec(),
            ncols == recs.col_count_spec(),
            r < nrows,
            widths@.len() == ncols,
            heights@.len() == nrows,
            out@ == content_line_upto(
                *recs,
                *cfg,
                widths@,
                heights@,
                r as int,
                k,
                c as int,
                nrows as int,
                ncols as int,
            ),
        decreases ncols - c,
    {
        push_content_boundary(&mut out, recs, cfg, widths, heights, r, k, c, nrows, ncols);
        push_content_column(&mut out, recs, cfg, widths, heights, r, k, c, nrows, ncols);
        c = c + 1;
    }
    push_content_boundary(&mut out, recs, cfg, widths, heights, r, k, ncols, nrows, ncols);
    out
}

/// Appends what the vertical boundary `i` shows on the separator line at
/// boundary `r`.
fn push_sep_boundary(
    out: &mut Vec<char>,
    recs: &Records,
    cfg: &GridConfig,
    widths: &Vec<usize>,
    heights: &Vec<usize>,
    r: usize,
    i: usize,
    nrows: usize,
    ncols: usize,
)
    requires
        recs.wf(),
        nrows == recs.row_count_spec(),
        ncols == recs.col_count_spec(),
        r <= nrows,
        i <= ncols,
        widths@.len() == ncols,
        heights@.len() == nrows,
    ensures
        final(out)@ == old(out)@ + sep_boundary_part(
            *recs,
            *cfg,
            widths@,
            heights@,
            r as int,
            i as int,
            nrows as int,
            ncols as int,
        ),
{
    if !cfg.has_vertical(i, nrows, ncols) {
        proof {
            assert(out@ =~= old(out)@ + Seq::<char>::empty());
        }
        return ;
    }
    let cross_left: bool = if i > 0 {
        crossing_at(cfg, r, i - 1, nrows, ncols)
    } else {
        false
    };
    let cross_right: bool = if i < ncols {
        crossing_at(cfg, r, i, nrows, ncols)
    } else {
        false
    };
    if i > 0 && i < ncols && cross_left && cross_right {
        let o1 = owner_cell_at(cfg, r, i - 1, nrows, ncols);
        let o2 = owner_cell_at(cfg, r, i, nrows, ncols);
        if o1.0 == o2.0 && o1.1 == o2.1 {
            let o = o2;
            proof {
                assert(crossing_spec(*cfg, r as int, i as int, nrows as int, ncols as int));
            }
            let local = usat_sub(lines_above_at(cfg, heights, o.0, r, nrows, ncols), 1);
            let b = block_line_at(recs, cfg, widths, heights, o.0, o.1, local, nrows, ncols);
            let pos = pos_in_block_at(cfg, widths, o.1, i, nrows, ncols);
            let idx = usat_sub(pos, 1);
            let ch: char = if idx < b.len() {
                b[idx]
            } else {
                ' '
            };
            let color = match cfg.get_text_color(o.0, o.1) {
                Some(cp) => Some(cp),
                None => None,
            };
            push_wrapped_char(out, ch, color);
            return ;
        }
    }
    if cross_left || cross_right {
        let g = vertical_glyph_at(cfg, r, i, ncols);
        let color = vertical_color_at(cfg, r, i, ncols);
        push_wrapped_char(out, g, color);
    } else {
        let g = intersection_glyph_at(cfg, r, i, nrows, ncols);
        let color = intersection_color_at(cfg, r, i, nrows, ncols);
        push_wrapped_char(out, g, color);
    }
}

/// Appends what column `c` shows on the separator line at boundary `r`.
fn push_sep_column(
    out: &mut Vec<char>,
    recs: &Records,
    cfg: &GridConfig,
    widths: &Vec<usize>,
    heights: &Vec<usize>,
    r: usize,
    c: usize,
    nrows: usize,
    ncols: usize,
)
    requires
        recs.wf(),
        nrows == recs.row_count_spec(),
        ncols == recs.col_count_spec(),
        r <= nrows,
        c < ncols,
        widths@.len() == ncols,
        heights@.len() == nrows,
    ensures
        final(out)@ == old(out)@ + sep_column_part(
            *recs,
            *cfg,
            widths@,
            heights@,
            r as int,
            c as int,
            nrows as int,
            ncols as int,
        ),
{
    if crossing_at(cfg, r, c, nrows, ncols) {
        let o = owner_cell_at(cfg, r, c, nrows, ncols);
        let local = usat_sub(lines_above_at(cfg, heights, o.0, r, nrows, ncols), 1);
        let b = block_line_at(recs, cfg, widths, heights, o.0, o.1, local, nrows, ncols);
        let pos = pos_in_block_at(cfg, widths, o.1, c, nrows, ncols);
        let sl = slice_padded(&b, pos, widths[c]);
        let color = match cfg.get_text_color(o.0, o.1) {
            Some(cp) => Some(cp),
            None => None,
        };
        push_wrapped(out, &sl, color);
    } else {
        let g = horizontal_glyph_at(cfg, r, c, nrows);
        let piece = fill_chars(widths[c], g);
        let color = horizontal_color_at(cfg, r, c, nrows);
        push_wrapped(out, &piece, color);
    }
}

/// Builds the separator line at boundary `r`.
fn build_sep_line(
    recs: &Records,
    cfg: &GridConfig,
    widths: &Vec<usize>,
    heights: &Vec<usize>,
    r: usize,
    nrows: usize,
    ncols: usize,
) -> (res: Vec<char>)
    requires
        recs.wf(),
        nrows == recs.row_count_spec(),
        ncols == recs.col_count_spec(),
        r <= nrows,
        widths@.len() == ncols,
        heights@.len() == nrows,
    ensures
        res@ == sep_line_spec(
            *recs,
            *cfg,
            widths@,
            heights@,
            r as int,
            nrows as int,
            ncols as int,
        ),
{
    let mut out: Vec<char> = Vec::new();
    let mut c: usize = 0;
    proof {
        assert(out@ =~= sep_line_upto(
            *recs,
            *cfg,
            widths@,
            heights@,
            r as int,
            0,
            nrows as int,
            ncols as int,
        ));
    }
    while c < ncols
        invariant
            c <= ncols,
            recs.wf(),
            nrows == recs.row_count_spec(),
            ncols == recs.col_count_spec(),
            r <= nrows,
            widths@.len() == ncols,
            heights@.len() == nrows,
            out@ == sep_line_upto(
                *recs,
                *cfg,
                widths@,
                heights@,
                r as int,
                c as int,
                nrows as int,
                ncols as int,
            ),
        decreases ncols - c,
    {
        push_sep_boundary(&mut out, recs, cfg, widths, heights, r, c, nrows, ncols);
        push_sep_column(&mut out, recs, cfg, widths, heights, r, c, nrows, ncols);
        c = c + 1;
    }
    push_sep_boundary(&mut out, recs, cfg, widths, heights, r, ncols, nrows, ncols);
    out
}

/// The content lines `0 .. k` of row `r`.
pub open spec fn row_content_lines(
    recs: Records,
    cfg: GridConfig,
    widths: Seq<usize>,
    heights: Seq<usize>,
    r: int,
    k: int,
    nrows: int,
    ncols: int,
) -> Seq<Seq<char>>
    decreases k,
{
    if k <= 0 {
        Seq::empty()
    } else {
        row_content_lines(recs, cfg, widths, heights, r, k - 1, nrows, ncols).push(
            content_line_spec(recs, cfg, widths, heights, r, (k - 1) as usize, nrows, ncols),
        )
    }
}

/// The lines of the table from row `r` on: each row's separator (when its
/// line exists) and content lines, and the closing separator at the end.
pub open spec fn grid_lines_from(
    recs: Records,
    cfg: GridConfig,
    widths: Seq<usize>,
    heights: Seq<usize>,
    r: int,
    nrows: int,
    ncols: int,
) -> Seq<Seq<char>>
    decreases nrows - r,
{
    if r < 0 || r >= nrows {
        if cfg.has_horizontal_spec(nrows, nrows, ncols) {
            seq![sep_line_spec(recs, cfg, widths, heights, nrows, nrows, ncols)]
        } else {
            Seq::empty()
        }
    } else {
        (if cfg.has_horizontal_spec(r, nrows, ncols) {
            seq![sep_line_spec(recs, cfg, widths, heights, r, nrows, ncols)]
        } else {
            Seq::empty()
        }) + row_content_lines(recs, cfg, widths, heights, r, heights[r] as int, nrows, ncols)
            + grid_lines_from(recs, cfg, widths, heights, r + 1, nrows, ncols)
    }
}

/// All the lines of the table, margins not included.
pub open spec fn table_lines_spec(
    recs: Records,
    cfg: GridConfig,
    widths: Seq<usize>,
    heights: Seq<usize>,
) -> Seq<Seq<char>> {
    grid_lines_from(
        recs,
        cfg,
        widths,
        heights,
        0,
        recs.row_count_spec() as int,
        recs.col_count_spec() as int,
    )
}

/// A line bracketed by the left and right margin indents.
pub open spec fn margin_wrap_line(cfg: GridConfig, l: Seq<char>) -> Seq<char> {
    char_fill(cfg.margin.left.size as nat, cfg.margin.left.fill) + l + char_fill(
        cfg.margin.right.size as nat,
        cfg.margin.right.fill,
    )
}

/// `n` copies of one line.
pub open spec fn repeat_line(l: Seq<char>, n: int) -> Seq<Seq<char>>
    decreases n,
{
    if n <= 0 {
        Seq::empty()
    } else {
        repeat_line(l, n - 1).push(l)
    }
}

/// The width of a rendered line with the margins included.
pub open spec fn full_width_spec(
    cfg: GridConfig,
    widths: Seq<usize>,
    nrows: int,
    ncols: int,
) -> usize {
    sadd(
        sadd(
            cfg.margin.left.size,
            crate::estimate::total_width_spec(cfg, widths, nrows, ncols),
        ),
        cfg.margin.right.size,
    )
}

/// All the output lines: the top margin lines, the table lines bracketed
/// by the side margins, and the bottom margin lines.
pub open spec fn all_lines_spec(
    recs: Records,
    cfg: GridConfig,
    widths: Seq<usize>,
    heights: Seq<usize>,
) -> Seq<Seq<char>> {
    let nrows = recs.row_count_spec() as int;
    let ncols = recs.col_count_spec() as int;
    let fw = full_width_spec(cfg, widths, nrows, ncols);
    repeat_line(char_fill(fw as nat, cfg.margin.top.fill), cfg.margin.top.size as int)
        + table_lines_spec(recs, cfg, widths, heights).map_values(
        |l: Seq<char>| margin_wrap_line(cfg, l),
    ) + repeat_line(char_fill(fw as nat, cfg.margin.bottom.fill), cfg.margin.bottom.size as int)
}

/// The lines joined with a newline between each pair, no trailing newline.
pub open spec fn join_lines_spec(ls: Seq<Seq<char>>) -> Seq<char>
    decreases ls.len(),
{
    if ls.len() == 0 {
        Seq::empty()
    } else if ls.len() == 1 {
        ls[0]
    } else {
        join_lines_spec(ls.drop_last()) + seq!['\n'] + ls.last()
    }
}

/// The rendered table: the empty text for an empty grid, else all the
/// output lines joined with newlines.
pub open spec fn render_spec(
    recs: Records,
    cfg: GridConfig,
    widths: Seq<usize>,
    heights: Seq<usize>,
) -> Seq<char> {
    if recs.row_count_spec() == 0 || recs.col_count_spec() == 0 {
        Seq::empty()
    } else {
        join_lines_spec(all_lines_spec(recs, cfg, widths, heights))
    }
}

/// Renders the grid with the given final dimensions.
///
/// The result is fully determined by the records, the configuration and
/// the dimensions; a grid with no rows or no columns renders to the empty
/// string.
pub fn render_grid(recs: &Records, cfg: &GridConfig, widths: &Vec<usize>, heights: &Vec<usize>) -> (res: String)
    requires
        recs.wf(),
        widths@.len() == recs.col_count_spec(),
        heights@.len() == recs.row_count_spec(),
    ensures
        res@ == render_spec(*recs, *cfg, widths@, heights@),
        recs.row_count_spec() == 0 || recs.col_count_spec() == 0 ==> res@ == Seq::<char>::empty(),
{
    let nrows = recs.count_rows();
    let ncols = recs.count_columns();
    if nrows == 0 || ncols == 0 {
        return String::new();
    }
    let mut lines: Vec<Vec<char>> = Vec::new();
    let mut r: usize = 0;
    proof {
        assert(crate::text::lines_view(lines@) =~= Seq::<Seq<char>>::empty());
        assert(table_lines_spec(*recs, *cfg, widths@, heights@) == crate::text::lines_view(lines@)
            + grid_lines_from(*recs, *cfg, widths@, heights@, 0, nrows as int, ncols as int));
    }
    while r < nrows
        invariant
            r <= nrows,
            recs.wf(),
            nrows == recs.row_count_spec(),
            ncols == recs.col_count_spec(),
            widths@.len() == ncols,
            heights@.len() == nrows,
            table_lines_spec(*recs, *cfg, widths@, heights@) == crate::text::lines_view(lines@)
                + grid_lines_from(*recs, *cfg, widths@, heights@, r as int, nrows as int, ncols as int),
        decreases nrows - r,
    {
        let ghost before = crate::text::lines_view(lines@);
        if cfg.has_horizontal(r, nrows, ncols) {
            let ghost l0 = lines@;
            let sep = build_sep_line(recs, cfg, widths, heights, r, nrows, ncols);
            lines.push(sep);
            proof {
                crate::text::lemma_lines_view_push(l0, lines@[lines@.len() - 1]);
            }
        }
        let ghost after_sep = crate::text::lines_view(lines@);
        let hr = heights[r];
        let mut k: usize = 0;
        proof {
            assert(after_sep =~= before + (if cfg.has_horizontal_spec(
                r as int,
                nrows as int,
                ncols as int,
            ) {
                seq![
                    sep_line_spec(
                        *recs,
                        *cfg,
                        widths@,
                        heights@,
                        r as int,
                        nrows as int,
                        ncols as int,
                    ),
                ]
            } else {
                Seq::<Seq<char>>::empty()
            }));
            assert(row_content_lines(
                *recs,
                *cfg,
                widths@,
                heights@,
                r as int,
                0,
                nrows as int,
                ncols as int,
            ) =~= Seq::<Seq<char>>::empty());
        }
        while k < hr
            invariant
                k <= hr,
                r < nrows,
                hr == heights@[r as int],
                recs.wf(),
                nrows == recs.row_count_spec(),
                ncols == recs.col_count_spec(),
                widths@.len() == ncols,
                heights@.len() == nrows,
                crate::text::lines_view(lines@) == after_sep + row_content_lines(
                    *recs,
                    *cfg,
                    widths@,
                    heights@,
                    r as int,
                    k as int,
                    nrows as int,
                    ncols as int,
                ),
            decreases hr - k,
        {
            let ghost l0 = lines@;
            let line = build_content_line(recs, cfg, widths, heights, r, k, nrows, ncols);
            lines.push(line);
            proof {
                crate::text::lemma_lines_view_push(l0, lines@[lines@.len() - 1]);
                assert(crate::text::lines_view(lines@) =~= after_sep + row_content_lines(
                    *recs,
                    *cfg,
                    widths@,
                    heights@,
                    r as int,
                    k + 1,
                    nrows as int,
                    ncols as int,
                ));
            }
            k = k + 1;
        }
        proof {
            assert(crate::text::lines_view(lines@) + grid_lines_from(
                *recs,
                *cfg,
                widths@,
                heights@,
                r + 1,
                nrows as int,
                ncols as int,
            ) =~= before + grid_lines_from(
                *recs,
                *cfg,
                widths@,
                heights@,
                r as int,
                nrows as int,
                ncols as int,
            ));
        }
        r = r + 1;
    }
    if cfg.has_horizontal(nrows, nrows, ncols) {
        let ghost l0 = lines@;
        let sep = build_sep_line(recs, cfg, widths, heights, nrows, nrows, ncols);
        lines.push(sep);
        proof {
            crate::text::lemma_lines_view_push(l0, lines@[lines@.len() - 1]);
        }
    }
    proof {
        assert(crate::text::lines_view(lines@) =~= table_lines_spec(
            *recs,
            *cfg,
            widths@,
            heights@,
        ));
    }
    // margins
    let fw = usat_add(
        usat_add(
            cfg.margin.left.size,
            crate::estimate::total_width(cfg, widths, nrows, ncols),
        ),
        cfg.margin.right.size,
    );
    let ghost tablev = crate::text::lines_view(lines@);
    let mut all: Vec<Vec<char>> = Vec::new();
    let ghost fwspec = full_width_spec(*cfg, widths@, nrows as int, ncols as int);
    let mut t: usize = 0;
    proof {
        assert(crate::text::lines_view(all@) =~= repeat_line(
            char_fill(fwspec as nat, cfg.margin.top.fill),
            0,
        ));
    }
    while t < cfg.margin.top.size
        invariant
            t <= cfg.margin.top.size,
            fw == fwspec,
            crate::text::lines_view(all@) == repeat_line(
                char_fill(fwspec as nat, cfg.margin.top.fill),
                t as int,
            ),
        decreases cfg.margin.top.size - t,
    {
        let ghost a0 = all@;
        let line = fill_chars(fw, cfg.margin.top.fill);
        all.push(line);
        proof {
            crate::text::lemma_lines_view_push(a0, all@[all@.len() - 1]);
            assert(crate::text::lines_view(all@) =~= repeat_line(
                char_fill(fwspec as nat, cfg.margin.top.fill),
                t + 1,
            ));
        }
        t = t + 1;
    }
    let ghost topv = crate::text::lines_view(all@);
    let mut li: usize = 0;
    proof {
        assert(crate::text::lines_view(all@) =~= topv + tablev.map_values(
            |l: Seq<char>| margin_wrap_line(*cfg, l),
        ).take(0));
    }
    while li < lines.len()
        invariant
            li <= lines@.len(),
            tablev == crate::text::lines_view(lines@),
            crate::text::lines_view(all@) == topv + tablev.map_values(
                |l: Seq<char>| margin_wrap_line(*cfg, l),
            ).take(li as int),
        decreases lines@.len() - li,
    {
        let mut wrapped = fill_chars(cfg.margin.left.size, cfg.margin.left.fill);
        let mut mid = chars_vec_copy(&lines[li]);
        wrapped.append(&mut mid);
        push_fill(&mut wrapped, cfg.margin.right.size, cfg.margin.right.fill);
        proof {
            assert(lines@[li as int]@ == tablev[li as int]);
            assert(wrapped@ =~= margin_wrap_line(*cfg, tablev[li as int]));
        }
        let ghost a0 = all@;
        all.push(wrapped);
        proof {
            crate::text::lemma_lines_view_push(a0, all@[all@.len() - 1]);
            assert(crate::text::lines_view(all@) =~= topv + tablev.map_values(
                |l: Seq<char>| margin_wrap_line(*cfg, l),
            ).take(li + 1));
        }
        li = li + 1;
    }
    let ghost midv = crate::text::lines_view(all@);
    proof {
        let mapped = tablev.map_values(|l: Seq<char>| margin_wrap_line(*cfg, l));
        assert(mapped.take(mapped.len() as int) =~= mapped);
    }
    let mut bt: usize = 0;
    while bt < cfg.margin.bottom.size
        invariant
            bt <= cfg.margin.bottom.size,
            fw == fwspec,
            crate::text::lines_view(all@) == midv + repeat_line(
                char_fill(fwspec as nat, cfg.margin.bottom.fill),
                bt as int,
            ),
        decreases cfg.margin.bottom.size - bt,
    {
        let ghost a0 = all@;
        let line = fill_chars(fw, cfg.margin.bottom.fill);
        all.push(line);
        proof {
            crate::text::lemma_lines_view_push(a0, all@[all@.len() - 1]);
            assert(crate::text::lines_view(all@) =~= midv + repeat_line(
                char_fill(fwspec as nat, cfg.margin.bottom.fill),
                bt + 1,
            ));
        }
        bt = bt + 1;
    }
    proof {
        assert(crate::text::lines_view(all@) =~= all_lines_spec(*recs, *cfg, widths@, heights@));
    }
    // join with newlines
    let ghost allv = crate::text::lines_view(all@);
    let mut joined: Vec<char> = Vec::new();
    let mut i: usize = 0;
    proof {
        assert(allv.take(0) =~= Seq::<Seq<char>>::empty());
    }
    while i < all.len()
        invariant
            i <= all@.len(),
            allv == crate::text::lines_view(all@),
            joined@ == join_lines_spec(allv.take(i as int)),
        decreases all@.len() - i,
    {
        if i > 0 {
            joined.push('\n');
        }
        let mut piece = chars_vec_copy(&all[i]);
        joined.append(&mut piece);
        proof {
            assert(all@[i as int]@ == allv[i as int]);
            let pre = allv.take(i + 1);
            assert(pre.drop_last() =~= allv.take(i as int));
            assert(pre.last() == allv[i as int]);
            if i == 0 {
                assert(joined@ =~= join_lines_spec(pre));
            } else {
                assert(joined@ =~= join_lines_spec(allv.take(i as int)) + seq!['\n']
                    + allv[i as int]);
                assert(joined@ =~= join_lines_spec(pre));
            }
        }
        i = i + 1;
    }
    proof {
        assert(allv.take(allv.len() as int) =~= allv);
    }
    string_from_chars(&joined)
}

} // verus!
