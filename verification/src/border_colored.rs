//! A per-cell border whose glyphs carry colors.

use vstd::prelude::*;

use crate::config::Border;
use crate::config::ColorPair;
use crate::config::GridConfig;
use crate::entity::Entity;
use crate::records::Records;

verus! {

/// A border glyph together with an optional color.
#[derive(Debug)]
pub struct Symbol {
    /// The glyph itself.
    pub c: char,
    /// The color the glyph is wrapped in, if any.
    pub color: Option<ColorPair>,
}

impl Clone for Symbol {
    /// A copy equal to the original.
    fn clone(&self) -> (r: Symbol)
        ensures
            r == *self,
    {
        Symbol {
            c: self.c,
            color: match &self.color {
                Some(cp) => Some(cp.clone()),
                None => None,
            },
        }
    }
}

impl Symbol {
    /// A plain glyph without a color.
    pub fn from_char(c: char) -> (r: Symbol)
        ensures
            r.c == c,
            r.color is None,
    {
        Symbol { c, color: None }
    }

    /// A glyph wrapped in the given escape sequences.
    pub fn colored(c: char, prefix: String, suffix: String) -> (r: Symbol)
        ensures
            r.c == c,
            r.color == Some(ColorPair { prefix, suffix }),
    {
        Symbol { c, color: Some(ColorPair { prefix, suffix }) }
    }
}

/// A cell border of colored glyphs.
#[derive(Clone, Debug)]
pub struct BorderColored(pub Border<Symbol>);

impl BorderColored {
    /// A border that overrides nothing.
    pub fn new() -> (r: BorderColored)
        ensures
            r.0 == Border::<Symbol>::empty_spec(),
    {
        BorderColored(Border::empty())
    }

    /// Sets the top border glyph.
    pub fn top(self, c: Symbol) -> (r: BorderColored)
        ensures
            r.0 == (Border { top: Some(c), ..self.0 }),
    {
        BorderColored(Border { top: Some(c), ..self.0 })
    }

    /// Sets the bottom border glyph.
    pub fn bottom(self, c: Symbol) -> (r: BorderColored)
        ensures
            r.0 == (Border { bottom: Some(c), ..self.0 }),
    {
        BorderColored(Border { bottom: Some(c), ..self.0 })
    }

    /// Sets the left border glyph.
    pub fn left(self, c: Symbol) -> (r: BorderColored)
        ensures
            r.0 == (Border { left: Some(c), ..self.0 }),
    {
        BorderColored(Border { left: Some(c), ..self.0 })
    }

    /// Sets the right border glyph.
    pub fn right(self, c: Symbol) -> (r: BorderColored)
        ensures
            r.0 == (Border { right: Some(c), ..self.0 }),
    {
        BorderColored(Border { right: Some(c), ..self.0 })
    }

    /// Sets the top left corner glyph.
    pub fn top_left_corner(self, c: Symbol) -> (r: BorderColored)
        ensures
            r.0 == (Border { left_top_corner: Some(c), ..self.0 }),
    {
        BorderColored(Border { left_top_corner: Some(c), ..self.0 })
    }

    /// Sets the top right corner glyph.
    pub fn top_right_corner(self, c: Symbol) -> (r: BorderColored)
        ensures
            r.0 == (Border { right_top_corner: Some(c), ..self.0 }),
    {
        BorderColored(Border { right_top_corner: Some(c), ..self.0 })
    }

    /// Sets the bottom left corner glyph.
    pub fn bottom_left_corner(self, c: Symbol) -> (r: BorderColored)
        ensures
            r.0 == (Border { left_bottom_corner: Some(c), ..self.0 }),
    {
        BorderColored(Border { left_bottom_corner: Some(c), ..self.0 })
    }

    /// Sets the bottom right corner glyph.
    pub fn bottom_right_corner(self, c: Symbol) -> (r: BorderColored)
        ensures
            r.0 == (Border { right_bottom_corner: Some(c), ..self.0 }),
    {
        BorderColored(Border { right_bottom_corner: Some(c), ..self.0 })
    }

    /// A border with every side and corner set to the same glyph.
    pub fn filled(c: Symbol) -> (r: BorderColored)
        ensures
            r.0.top == Some(c),
            r.0.bottom == Some(c),
            r.0.left == Some(c),
            r.0.right == Some(c),
            r.0.left_top_corner == Some(c),
            r.0.left_bottom_corner == Some(c),
            r.0.right_top_corner == Some(c),
            r.0.right_bottom_corner == Some(c),
    {
        BorderColored(
            Border {
                top: Some(c.clone()),
                bottom: Some(c.clone()),
                left: Some(c.clone()),
                right: Some(c.clone()),
                left_top_corner: Some(c.clone()),
                left_bottom_corner: Some(c.clone()),
                right_top_corner: Some(c.clone()),
                right_bottom_corner: Some(c),
            },
        )
    }

    /// Applies the border's glyphs and colors to every cell the entity
    /// covers.
    pub fn change(&self, records: &Records, cfg: &mut GridConfig, entity: Entity)
        ensures
            forall|r: int, c: int|
                0 <= r < records.row_count_spec() && 0 <= c < records.col_count_spec()
                    ==> #[trigger] final(cfg).cell_border_spec(r, c) == if entity.contains_spec(
                    r,
                    c,
                ) {
                    split_glyphs_spec(*self)
                } else {
                    old(cfg).cell_border_spec(r, c)
                },
            forall|r: int, c: int|
                0 <= r < records.row_count_spec() && 0 <= c < records.col_count_spec()
                    ==> #[trigger] final(cfg).cell_border_color_spec(r, c)
                    == if entity.contains_spec(r, c) {
                    split_colors_spec(*self)
                } else {
                    old(cfg).cell_border_color_spec(r, c)
                },
            final(cfg).tab_width == old(cfg).tab_width,
            final(cfg).margin == old(cfg).margin,
            final(cfg).borders == old(cfg).borders,
            final(cfg).padding == old(cfg).padding,
            final(cfg).alignment_h == old(cfg).alignment_h,
            final(cfg).alignment_v == old(cfg).alignment_v,
            final(cfg).formatting == old(cfg).formatting,
            final(cfg).text_color == old(cfg).text_color,
            final(cfg).span_columns == old(cfg).span_columns,
            final(cfg).span_rows == old(cfg).span_rows,
    {
        let nrows = records.count_rows();
        let ncols = records.count_columns();
        let mut r: usize = 0;
        while r < nrows
            invariant
                r <= nrows,
                nrows == records.row_count_spec(),
                ncols == records.col_count_spec(),
                cfg.tab_width == old(cfg).tab_width,
                cfg.margin == old(cfg).margin,
                cfg.borders == old(cfg).borders,
                cfg.padding == old(cfg).padding,
                cfg.alignment_h == old(cfg).alignment_h,
                cfg.alignment_v == old(cfg).alignment_v,
                cfg.formatting == old(cfg).formatting,
                cfg.text_color == old(cfg).text_color,
                cfg.span_columns == old(cfg).span_columns,
                cfg.span_rows == old(cfg).span_rows,
                forall|rr: int, cc: int|
                    0 <= rr < nrows && 0 <= cc < ncols ==> #[trigger] cfg.cell_border_spec(rr, cc)
                        == if rr < r && entity.contains_spec(rr, cc) {
                        split_glyphs_spec(*self)
                    } else {
                        old(cfg).cell_border_spec(rr, cc)
                    },
                forall|rr: int, cc: int|
                    0 <= rr < nrows && 0 <= cc < ncols ==> #[trigger] cfg.cell_border_color_spec(
                        rr,
                        cc,
                    ) == if rr < r && entity.contains_spec(rr, cc) {
                        split_colors_spec(*self)
                    } else {
                        old(cfg).cell_border_color_spec(rr, cc)
                    },
            decreases nrows - r,
        {
            let mut c: usize = 0;
            while c < ncols
                invariant
                    c <= ncols,
                    r < nrows,
                    nrows == records.row_count_spec(),
                    ncols == records.col_count_spec(),
                    cfg.tab_width == old(cfg).tab_width,
                    cfg.margin == old(cfg).margin,
                    cfg.borders == old(cfg).borders,
                    cfg.padding == old(cfg).padding,
                    cfg.alignment_h == old(cfg).alignment_h,
                    cfg.alignment_v == old(cfg).alignment_v,
                    cfg.formatting == old(cfg).formatting,
                    cfg.text_color == old(cfg).text_color,
                    cfg.span_columns == old(cfg).span_columns,
                    cfg.span_rows == old(cfg).span_rows,
                    forall|rr: int, cc: int|
                        0 <= rr < nrows && 0 <= cc < ncols ==> #[trigger] cfg.cell_border_spec(
                            rr,
                            cc,
                        ) == if (rr < r || (rr == r && cc < c)) && entity.contains_spec(rr, cc) {
                            split_glyphs_spec(*self)
                        } else {
                            old(cfg).cell_border_spec(rr, cc)
                        },
                    forall|rr: int, cc: int|
                        0 <= rr < nrows && 0 <= cc < ncols
                            ==> #[trigger] cfg.cell_border_color_spec(rr, cc) == if (rr < r || (rr
                            == r && cc < c)) && entity.contains_spec(rr, cc) {
                            split_colors_spec(*self)
                        } else {
                            old(cfg).cell_border_color_spec(rr, cc)
                        },
                decreases ncols - c,
            {
                if entity.contains(r, c) {
                    let ghost pre = *cfg;
                    let (glyphs, colors) = split_border_colored(self);
                    let ghost colorsv = colors;
                    cfg.set_border(r, c, glyphs);
                    cfg.set_border_color(r, c, colors);
                    proof {
                        assert(cfg.border_chars@ == pre.border_chars@.push((r, c, glyphs)));
                        assert(cfg.border_chars@.last() == (r, c, glyphs));
                        assert(cfg.border_colors@ == pre.border_colors@.push((r, c, colorsv)));
                        assert(cfg.border_colors@.last() == (r, c, colorsv));
                        assert forall|rr: int, cc: int|
                            0 <= rr < nrows && 0 <= cc < ncols implies #[trigger] cfg.cell_border_spec(
                            rr,
                            cc,
                        ) == if (rr < r || (rr == r && cc < c + 1)) && entity.contains_spec(
                            rr,
                            cc,
                        ) {
                            split_glyphs_spec(*self)
                        } else {
                            old(cfg).cell_border_spec(rr, cc)
                        } by {
                            if rr == r && cc == c {
                                assert(crate::entity::find_cell_keyed(
                                    cfg.border_chars@,
                                    rr,
                                    cc,
                                ) == Some(split_glyphs_spec(*self)));
                            } else {
                                assert(cfg.border_chars@.drop_last() =~= pre.border_chars@);
                                assert(crate::entity::find_cell_keyed(cfg.border_chars@, rr, cc)
                                    == crate::entity::find_cell_keyed(pre.border_chars@, rr, cc));
                                assert(cfg.cell_border_spec(rr, cc) == pre.cell_border_spec(
                                    rr,
                                    cc,
                                ));
                            }
                        }
                        assert forall|rr: int, cc: int|
                            0 <= rr < nrows && 0 <= cc < ncols implies #[trigger] cfg.cell_border_color_spec(
                            rr,
                            cc,
                        ) == if (rr < r || (rr == r && cc < c + 1)) && entity.contains_spec(
                            rr,
                            cc,
                        ) {
                            split_colors_spec(*self)
                        } else {
                            old(cfg).cell_border_color_spec(rr, cc)
                        } by {
                            if rr == r && cc == c {
                                assert(crate::entity::find_cell_keyed(
                                    cfg.border_colors@,
                                    rr,
                                    cc,
                                ) == Some(split_colors_spec(*self)));
                            } else {
                                assert(cfg.border_colors@.drop_last() =~= pre.border_colors@);
                                assert(crate::entity::find_cell_keyed(cfg.border_colors@, rr, cc)
                                    == crate::entity::find_cell_keyed(pre.border_colors@, rr, cc));
                                assert(cfg.cell_border_color_spec(rr, cc)
                                    == pre.cell_border_color_spec(rr, cc));
                            }
                        }
                    }
                }
                c = c + 1;
            }
            r = r + 1;
        }
    }
}

/// The glyph half of a colored border.
pub open spec fn split_glyphs_spec(b: BorderColored) -> Border<char> {
    Border {
        top: match b.0.top {
            Some(s) => Some(s.c),
            None => None,
        },
        bottom: match b.0.bottom {
            Some(s) => Some(s.c),
            None => None,
        },
        left: match b.0.left {
            Some(s) => Some(s.c),
            None => None,
        },
        right: match b.0.right {
            Some(s) => Some(s.c),
            None => None,
        },
        left_top_corner: match b.0.left_top_corner {
            Some(s) => Some(s.c),
            None => None,
        },
        left_bottom_corner: match b.0.left_bottom_corner {
            Some(s) => Some(s.c),
            None => None,
        },
        right_top_corner: match b.0.right_top_corner {
            Some(s) => Some(s.c),
            None => None,
        },
        right_bottom_corner: match b.0.right_bottom_corner {
            Some(s) => Some(s.c),
            None => None,
        },
    }
}

/// The color half of a colored border.
pub open spec fn split_colors_spec(b: BorderColored) -> Border<ColorPair> {
    Border {
        top: match b.0.top {
            Some(s) => s.color,
            None => None,
        },
        bottom: match b.0.bottom {
            Some(s) => s.color,
            None => None,
        },
        left: match b.0.left {
            Some(s) => s.color,
            None => None,
        },
        right: match b.0.right {
            Some(s) => s.color,
            None => None,
        },
        left_top_corner: match b.0.left_top_corner {
            Some(s) => s.color,
            None => None,
        },
        left_bottom_corner: match b.0.left_bottom_corner {
            Some(s) => s.color,
            None => None,
        },
        right_top_corner: match b.0.right_top_corner {
            Some(s) => s.color,
            None => None,
        },
        right_bottom_corner: match b.0.right_bottom_corner {
            Some(s) => s.color,
            None => None,
        },
    }
}

/// Splits a colored border into its glyphs and its colors.
pub fn split_border_colored(b: &BorderColored) -> (r: (Border<char>, Border<ColorPair>))
    ensures
        r.0 == split_glyphs_spec(*b),
        r.1 == split_colors_spec(*b),
{
    let mut glyphs: Border<char> = Border::empty();
    let mut colors: Border<ColorPair> = Border::empty();
    if let Some(s) = &b.0.left {
        glyphs.left = Some(s.c);
        colors.left = s.color.clone();
    }
    if let Some(s) = &b.0.right {
        glyphs.right = Some(s.c);
        colors.right = s.color.clone();
    }
    if let Some(s) = &b.0.top {
        glyphs.top = Some(s.c);
        colors.top = s.color.clone();
    }
    if let Some(s) = &b.0.bottom {
        glyphs.bottom = Some(s.c);
        colors.bottom = s.color.clone();
    }
    if let Some(s) = &b.0.left_top_corner {
        glyphs.left_top_corner = Some(s.c);
        colors.left_top_corner = s.color.clone();
    }
    if let Some(s) = &b.0.right_top_corner {
        glyphs.right_top_corner = Some(s.c);
        colors.right_top_corner = s.color.clone();
    }
    if let Some(s) = &b.0.left_bottom_corner {
        glyphs.left_bottom_corner = Some(s.c);
        colors.left_bottom_corner = s.color.clone();
    }
    if let Some(s) = &b.0.right_bottom_corner {
        glyphs.right_bottom_corner = Some(s.c);
        colors.right_bottom_corner = s.color.clone();
    }
    (glyphs, colors)
}

} // verus!
