//! The grid configuration: borders, padding, alignment, formatting flags,
//! spans, margin, tab width and colors.
//!
//! The configuration is pure data; the estimator and the renderer read it
//! through the resolution functions defined here.  Out-of-range targets are
//! legal: they simply match no position.

use vstd::prelude::*;

use crate::entity::find_cell_keyed;
use crate::entity::find_in_cells;
use crate::entity::Entity;
use crate::entity::EntityMap;

verus! {

/// One side of a padding or margin: a size and the character that fills it.
#[derive(Clone, Copy, Debug)]
pub struct Indent {
    /// Number of characters.
    pub size: usize,
    /// The character the indent is filled with.
    pub fill: char,
}

impl Indent {
    /// An indent of `size` characters filled with `fill`.
    pub fn new(size: usize, fill: char) -> (r: Indent)
        ensures
            r.size == size,
            r.fill == fill,
    {
        Indent { size, fill }
    }

    /// An indent of `size` spaces.
    pub fn spaced(size: usize) -> (r: Indent)
        ensures
            r.size == size,
            r.fill == ' ',
    {
        Indent { size, fill: ' ' }
    }

    /// An empty indent.
    pub fn zero() -> (r: Indent)
        ensures
            r.size == 0,
            r.fill == ' ',
    {
        Indent { size: 0, fill: ' ' }
    }
}

/// A value for each of the four sides of a box.
#[derive(Clone, Copy, Debug)]
pub struct Sides<T> {
    pub left: T,
    pub right: T,
    pub top: T,
    pub bottom: T,
}

/// Horizontal alignment of cell content within its column.
#[derive(Clone, Copy, Debug, PartialEq, Eq, Structural)]
pub enum AlignmentHorizontal {
    Left,
    Center,
    Right,
}

/// Vertical alignment of cell content within its row.
#[derive(Clone, Copy, Debug, PartialEq, Eq, Structural)]
pub enum AlignmentVertical {
    Top,
    Center,
    Bottom,
}

/// Formatting flags of a cell.
#[derive(Clone, Copy, Debug, PartialEq, Eq, Structural)]
pub struct Formatting {
    /// Trim the blanks around every content line before it is aligned.
    pub horizontal_trim: bool,
    /// Drop blank lines around the content before it is aligned.
    pub vertical_trim: bool,
    /// Align every line on its own; otherwise the block of lines is aligned
    /// as a whole.
    pub allow_lines_alignment: bool,
}

/// The border segments one cell can own: its four edges and four corners.
///
/// A `None` side leaves the globally configured glyph in force.
#[derive(Clone, Copy, Debug)]
pub struct Border<T> {
    pub top: Option<T>,
    pub bottom: Option<T>,
    pub left: Option<T>,
    pub right: Option<T>,
    pub left_top_corner: Option<T>,
    pub left_bottom_corner: Option<T>,
    pub right_top_corner: Option<T>,
    pub right_bottom_corner: Option<T>,
}

impl<T> Border<T> {
    /// A border that overrides nothing.
    pub open spec fn empty_spec() -> Border<T> {
        Border {
            top: None,
            bottom: None,
            left: None,
            right: None,
            left_top_corner: None,
            left_bottom_corner: None,
            right_top_corner: None,
            right_bottom_corner: None,
        }
    }

    /// A border that overrides nothing.
    pub fn empty() -> (r: Border<T>)
        ensures
            r == Self::empty_spec(),
    {
        Border {
            top: None,
            bottom: None,
            left: None,
            right: None,
            left_top_corner: None,
            left_bottom_corner: None,
            right_top_corner: None,
            right_bottom_corner: None,
        }
    }
}

/// The globally configured border glyphs, one slot per kind of grid line and
/// intersection.  An absent glyph means the line is not drawn at all.
#[derive(Clone, Copy, Debug)]
pub struct Borders {
    pub top: Option<char>,
    pub top_left: Option<char>,
    pub top_right: Option<char>,
    pub top_intersection: Option<char>,
    pub bottom: Option<char>,
    pub bottom_left: Option<char>,
    pub bottom_right: Option<char>,
    pub bottom_intersection: Option<char>,
    pub horizontal: Option<char>,
    pub horizontal_left: Option<char>,
    pub horizontal_right: Option<char>,
    pub vertical: Option<char>,
    pub vertical_left: Option<char>,
    pub vertical_right: Option<char>,
    pub intersection: Option<char>,
}

/// The plain box-drawing border set: `+`, `-` and `|` everywhere.
pub open spec fn ascii_borders_spec() -> Borders {
    Borders {
        top: Some('-'),
        top_left: Some('+'),
        top_right: Some('+'),
        top_intersection: Some('+'),
        bottom: Some('-'),
        bottom_left: Some('+'),
        bottom_right: Some('+'),
        bottom_intersection: Some('+'),
        horizontal: Some('-'),
        horizontal_left: Some('+'),
        horizontal_right: Some('+'),
        vertical: Some('|'),
        vertical_left: Some('|'),
        vertical_right: Some('|'),
        intersection: Some('+'),
    }
}

/// The plain box-drawing border set: `+`, `-` and `|` everywhere.
pub fn ascii_borders() -> (r: Borders)
    ensures
        r == ascii_borders_spec(),
{
    Borders {
        top: Some('-'),
        top_left: Some('+'),
        top_right: Some('+'),
        top_intersection: Some('+'),
        bottom: Some('-'),
        bottom_left: Some('+'),
        bottom_right: Some('+'),
        bottom_intersection: Some('+'),
        horizontal: Some('-'),
        horizontal_left: Some('+'),
        horizontal_right: Some('+'),
        vertical: Some('|'),
        vertical_left: Some('|'),
        vertical_right: Some('|'),
        intersection: Some('+'),
    }
}

/// An opaque color: the escape sequence written before a piece of text and
/// the one written after it.  Colors never count toward widths.
#[derive(Debug)]
pub struct ColorPair {
    pub prefix: String,
    pub suffix: String,
}

impl Clone for ColorPair {
    /// A copy equal to the original.
    fn clone(&self) -> (r: ColorPair)
        ensures
            r == *self,
    {
        ColorPair { prefix: self.prefix.clone(), suffix: self.suffix.clone() }
    }
}

/// The whole configuration of a grid.
pub struct GridConfig {
    /// Width a tab character expands to.
    pub tab_width: usize,
    /// Outer indent around the rendered table.
    pub margin: Sides<Indent>,
    /// Globally configured border glyphs.
    pub borders: Borders,
    /// Per-entity padding inside a cell box.
    pub padding: EntityMap<Sides<Indent>>,
    /// Per-entity horizontal alignment.
    pub alignment_h: EntityMap<AlignmentHorizontal>,
    /// Per-entity vertical alignment.
    pub alignment_v: EntityMap<AlignmentVertical>,
    /// Per-entity formatting flags.
    pub formatting: EntityMap<Formatting>,
    /// Per-entity text color.
    pub text_color: EntityMap<Option<ColorPair>>,
    /// Per-cell border glyph overrides, keyed `(row, col, border)`.
    pub border_chars: Vec<(usize, usize, Border<char>)>,
    /// Per-cell border color overrides, keyed `(row, col, border)`.
    pub border_colors: Vec<(usize, usize, Border<ColorPair>)>,
    /// Column spans, keyed `(row, col, span)`; a span below two is no span.
    pub span_columns: Vec<(usize, usize, usize)>,
    /// Row spans, keyed `(row, col, span)`; a span below two is no span.
    pub span_rows: Vec<(usize, usize, usize)>,
}

/// Whether a configuration is the default one: tab width four, no margin,
/// plain box borders, one space of padding left and right, left and top
/// alignment, no trim, no colors, no spans, no overrides.
pub open spec fn is_default_cfg(r: GridConfig) -> bool {
    &&& r.tab_width == 4
    &&& r.margin.left.size == 0 && r.margin.right.size == 0 && r.margin.top.size == 0
        && r.margin.bottom.size == 0
    &&& r.margin.left.fill == ' ' && r.margin.right.fill == ' ' && r.margin.top.fill == ' '
        && r.margin.bottom.fill == ' '
    &&& r.borders == ascii_borders_spec()
    &&& r.padding.global.left == (Indent { size: 1, fill: ' ' })
    &&& r.padding.global.right == (Indent { size: 1, fill: ' ' })
    &&& r.padding.global.top == (Indent { size: 0, fill: ' ' })
    &&& r.padding.global.bottom == (Indent { size: 0, fill: ' ' })
    &&& r.padding.rows@ == Seq::<(usize, Sides<Indent>)>::empty()
    &&& r.padding.columns@ == Seq::<(usize, Sides<Indent>)>::empty()
    &&& r.padding.cells@ == Seq::<(usize, usize, Sides<Indent>)>::empty()
    &&& r.alignment_h.global == AlignmentHorizontal::Left
    &&& r.alignment_h.rows@ == Seq::<(usize, AlignmentHorizontal)>::empty()
    &&& r.alignment_h.columns@ == Seq::<(usize, AlignmentHorizontal)>::empty()
    &&& r.alignment_h.cells@ == Seq::<(usize, usize, AlignmentHorizontal)>::empty()
    &&& r.alignment_v.global == AlignmentVertical::Top
    &&& r.alignment_v.rows@ == Seq::<(usize, AlignmentVertical)>::empty()
    &&& r.alignment_v.columns@ == Seq::<(usize, AlignmentVertical)>::empty()
    &&& r.alignment_v.cells@ == Seq::<(usize, usize, AlignmentVertical)>::empty()
    &&& r.formatting.global == (Formatting {
        horizontal_trim: false,
        vertical_trim: false,
        allow_lines_alignment: false,
    })
    &&& r.formatting.rows@ == Seq::<(usize, Formatting)>::empty()
    &&& r.formatting.columns@ == Seq::<(usize, Formatting)>::empty()
    &&& r.formatting.cells@ == Seq::<(usize, usize, Formatting)>::empty()
    &&& r.text_color.global is None
    &&& r.text_color.rows@ == Seq::<(usize, Option<ColorPair>)>::empty()
    &&& r.text_color.columns@ == Seq::<(usize, Option<ColorPair>)>::empty()
    &&& r.text_color.cells@ == Seq::<(usize, usize, Option<ColorPair>)>::empty()
    &&& r.border_chars@ == Seq::<(usize, usize, Border<char>)>::empty()
    &&& r.border_colors@ == Seq::<(usize, usize, Border<ColorPair>)>::empty()
    &&& r.span_columns@ == Seq::<(usize, usize, usize)>::empty()
    &&& r.span_rows@ == Seq::<(usize, usize, usize)>::empty()
}

impl GridConfig {
    /// The default configuration: tab width four, no margin, plain box
    /// borders, one space of padding left and right, left and top
    /// alignment, no trim, no colors, no spans.
    pub fn new() -> (r: GridConfig)
        ensures
            is_default_cfg(r),
            r.tab_width == 4,
            r.margin.left.size == 0 && r.margin.right.size == 0 && r.margin.top.size == 0
                && r.margin.bottom.size == 0,
            r.margin.left.fill == ' ' && r.margin.right.fill == ' ' && r.margin.top.fill == ' '
                && r.margin.bottom.fill == ' ',
            r.borders == ascii_borders_spec(),
            r.padding.global.left == (Indent { size: 1, fill: ' ' }),
            r.padding.global.right == (Indent { size: 1, fill: ' ' }),
            r.padding.global.top == (Indent { size: 0, fill: ' ' }),
            r.padding.global.bottom == (Indent { size: 0, fill: ' ' }),
            r.padding.rows@ == Seq::<(usize, Sides<Indent>)>::empty(),
            r.padding.columns@ == Seq::<(usize, Sides<Indent>)>::empty(),
            r.padding.cells@ == Seq::<(usize, usize, Sides<Indent>)>::empty(),
            r.alignment_h.global == AlignmentHorizontal::Left,
            r.alignment_h.rows@ == Seq::<(usize, AlignmentHorizontal)>::empty(),
            r.alignment_h.columns@ == Seq::<(usize, AlignmentHorizontal)>::empty(),
            r.alignment_h.cells@ == Seq::<(usize, usize, AlignmentHorizontal)>::empty(),
            r.alignment_v.global == AlignmentVertical::Top,
            r.alignment_v.rows@ == Seq::<(usize, AlignmentVertical)>::empty(),
            r.alignment_v.columns@ == Seq::<(usize, AlignmentVertical)>::empty(),
            r.alignment_v.cells@ == Seq::<(usize, usize, AlignmentVertical)>::empty(),
            r.formatting.global == (Formatting {
                horizontal_trim: false,
                vertical_trim: false,
                allow_lines_alignment: false,
            }),
            r.formatting.rows@ == Seq::<(usize, Formatting)>::empty(),
            r.formatting.columns@ == Seq::<(usize, Formatting)>::empty(),
            r.formatting.cells@ == Seq::<(usize, usize, Formatting)>::empty(),
            r.text_color.global is None,
            r.text_color.rows@ == Seq::<(usize, Option<ColorPair>)>::empty(),
            r.text_color.columns@ == Seq::<(usize, Option<ColorPair>)>::empty(),
            r.text_color.cells@ == Seq::<(usize, usize, Option<ColorPair>)>::empty(),
            r.border_chars@ == Seq::<(usize, usize, Border<char>)>::empty(),
            r.border_colors@ == Seq::<(usize, usize, Border<ColorPair>)>::empty(),
            r.span_columns@ == Seq::<(usize, usize, usize)>::empty(),
            r.span_rows@ == Seq::<(usize, usize, usize)>::empty(),
    {
        GridConfig {
            tab_width: 4,
            margin: Sides {
                left: Indent::zero(),
                right: Indent::zero(),
                top: Indent::zero(),
                bottom: Indent::zero(),
            },
            borders: ascii_borders(),
            padding: EntityMap::new(
                Sides {
                    left: Indent::new(1, ' '),
                    right: Indent::new(1, ' '),
                    top: Indent::zero(),
                    bottom: Indent::zero(),
                },
            ),
            alignment_h: EntityMap::new(AlignmentHorizontal::Left),
            alignment_v: EntityMap::new(AlignmentVertical::Top),
            formatting: EntityMap::new(
                Formatting {
                    horizontal_trim: false,
                    vertical_trim: false,
                    allow_lines_alignment: false,
                },
            ),
            text_color: EntityMap::new(None),
            border_chars: Vec::new(),
            border_colors: Vec::new(),
            span_columns: Vec::new(),
            span_rows: Vec::new(),
        }
    }

    /// The tab width in force.
    pub fn get_tab_width(&self) -> (r: usize)
        ensures
            r == self.tab_width,
    {
        self.tab_width
    }

    /// Sets the tab width.
    pub fn set_tab_width(&mut self, width: usize)
        ensures
            *final(self) == (GridConfig { tab_width: width, ..*old(self) }),
    {
        self.tab_width = width;
    }

    /// Sets the outer margin.
    pub fn set_margin(&mut self, margin: Sides<Indent>)
        ensures
            *final(self) == (GridConfig { margin, ..*old(self) }),
    {
        self.margin = margin;
    }

    /// Replaces the global border glyphs.
    pub fn set_borders(&mut self, borders: Borders)
        ensures
            *final(self) == (GridConfig { borders, ..*old(self) }),
    {
        self.borders = borders;
    }

    /// The padding that applies at `(row, col)`.
    pub open spec fn padding_spec(self, row: int, col: int) -> Sides<Indent> {
        self.padding.lookup_spec(row, col)
    }

    /// Resolves the padding at `(row, col)`.
    pub fn get_padding(&self, row: usize, col: usize) -> (r: Sides<Indent>)
        ensures
            r == self.padding_spec(row as int, col as int),
    {
        *self.padding.lookup(row, col)
    }

    /// Sets the padding of every cell the entity covers.
    pub fn set_padding(&mut self, entity: Entity, padding: Sides<Indent>)
        ensures
            EntityMap::inserted_spec(old(self).padding, final(self).padding, entity, padding),
            final(self).tab_width == old(self).tab_width,
            final(self).margin == old(self).margin,
            final(self).borders == old(self).borders,
            final(self).alignment_h == old(self).alignment_h,
            final(self).alignment_v == old(self).alignment_v,
            final(self).formatting == old(self).formatting,
            final(self).text_color == old(self).text_color,
            final(self).border_chars == old(self).border_chars,
            final(self).border_colors == old(self).border_colors,
            final(self).span_columns == old(self).span_columns,
            final(self).span_rows == old(self).span_rows,
    {
        self.padding.insert(entity, padding);
    }

    /// The horizontal alignment that applies at `(row, col)`.
    pub open spec fn alignment_h_spec(self, row: int, col: int) -> AlignmentHorizontal {
        self.alignment_h.lookup_spec(row, col)
    }

    /// Resolves the horizontal alignment at `(row, col)`.
    pub fn get_alignment_horizontal(&self, row: usize, col: usize) -> (r: AlignmentHorizontal)
        ensures
            r == self.alignment_h_spec(row as int, col as int),
    {
        *self.alignment_h.lookup(row, col)
    }

    /// Sets the horizontal alignment of every cell the entity covers.
    pub fn set_alignment_horizontal(&mut self, entity: Entity, alignment: AlignmentHorizontal)
        ensures
            EntityMap::inserted_spec(
                old(self).alignment_h,
                final(self).alignment_h,
                entity,
                alignment,
            ),
            final(self).tab_width == old(self).tab_width,
            final(self).margin == old(self).margin,
            final(self).borders == old(self).borders,
            final(self).padding == old(self).padding,
            final(self).alignment_v == old(self).alignment_v,
            final(self).formatting == old(self).formatting,
            final(self).text_color == old(self).text_color,
            final(self).border_chars == old(self).border_chars,
            final(self).border_colors == old(self).border_colors,
            final(self).span_columns == old(self).span_columns,
            final(self).span_rows == old(self).span_rows,
    {
        self.alignment_h.insert(entity, alignment);
    }

    /// The vertical alignment that applies at `(row, col)`.
    pub open spec fn alignment_v_spec(self, row: int, col: int) -> AlignmentVertical {
        self.alignment_v.lookup_spec(row, col)
    }

    /// Resolves the vertical alignment at `(row, col)`.
    pub fn get_alignment_vertical(&self, row: usize, col: usize) -> (r: AlignmentVertical)
        ensures
            r == self.alignment_v_spec(row as int, col as int),
    {
        *self.alignment_v.lookup(row, col)
    }

    /// Sets the vertical alignment of every cell the entity covers.
    pub fn set_alignment_vertical(&mut self, entity: Entity, alignment: AlignmentVertical)
        ensures
            EntityMap::inserted_spec(
                old(self).alignment_v,
                final(self).alignment_v,
                entity,
                alignment,
            ),
            final(self).tab_width == old(self).tab_width,
            final(self).margin == old(self).margin,
            final(self).borders == old(self).borders,
            final(self).padding == old(self).padding,
            final(self).alignment_h == old(self).alignment_h,
            final(self).formatting == old(self).formatting,
            final(self).text_color == old(self).text_color,
            final(self).border_chars == old(self).border_chars,
            final(self).border_colors == old(self).border_colors,
            final(self).span_columns == old(self).span_columns,
            final(self).span_rows == old(self).span_rows,
    {
        self.alignment_v.insert(entity, alignment);
    }

    /// The formatting flags that apply at `(row, col)`.
    pub open spec fn formatting_spec(self, row: int, col: int) -> Formatting {
        self.formatting.lookup_spec(row, col)
    }

    /// Resolves the formatting flags at `(row, col)`.
    pub fn get_formatting(&self, row: usize, col: usize) -> (r: Formatting)
        ensures
            r == self.formatting_spec(row as int, col as int),
    {
        *self.formatting.lookup(row, col)
    }

    /// Sets the formatting flags of every cell the entity covers.
    pub fn set_formatting(&mut self, entity: Entity, formatting: Formatting)
        ensures
            EntityMap::inserted_spec(
                old(self).formatting,
                final(self).formatting,
                entity,
                formatting,
            ),
            final(self).tab_width == old(self).tab_width,
            final(self).margin == old(self).margin,
            final(self).borders == old(self).borders,
            final(self).padding == old(self).padding,
            final(self).alignment_h == old(self).alignment_h,
            final(self).alignment_v == old(self).alignment_v,
            final(self).text_color == old(self).text_color,
            final(self).border_chars == old(self).border_chars,
            final(self).border_colors == old(self).border_colors,
            final(self).span_columns == old(self).span_columns,
            final(self).span_rows == old(self).span_rows,
    {
        self.formatting.insert(entity, formatting);
    }

    /// The text color that applies at `(row, col)`.
    pub open spec fn text_color_spec(self, row: int, col: int) -> Option<ColorPair> {
        self.text_color.lookup_spec(row, col)
    }

    /// Resolves the text color at `(row, col)`.
    pub fn get_text_color(&self, row: usize, col: usize) -> (r: &Option<ColorPair>)
        ensures
            *r == self.text_color_spec(row as int, col as int),
    {
        self.text_color.lookup(row, col)
    }

    /// Sets the text color of every cell the entity covers.
    pub fn set_text_color(&mut self, entity: Entity, color: Option<ColorPair>)
        ensures
            EntityMap::inserted_spec(old(self).text_color, final(self).text_color, entity, color),
            final(self).tab_width == old(self).tab_width,
            final(self).margin == old(self).margin,
            final(self).borders == old(self).borders,
            final(self).padding == old(self).padding,
            final(self).alignment_h == old(self).alignment_h,
            final(self).alignment_v == old(self).alignment_v,
            final(self).formatting == old(self).formatting,
            final(self).border_chars == old(self).border_chars,
            final(self).border_colors == old(self).border_colors,
            final(self).span_columns == old(self).span_columns,
            final(self).span_rows == old(self).span_rows,
    {
        self.text_color.insert(entity, color);
    }

    /// The border glyph overrides of the cell `(row, col)`: the latest
    /// stored entry, or an all-`None` border.
    pub open spec fn cell_border_spec(self, row: int, col: int) -> Border<char> {
        match find_cell_keyed(self.border_chars@, row, col) {
            Some(b) => b,
            None => Border::empty_spec(),
        }
    }

    /// Resolves the border glyph overrides of the cell `(row, col)`.
    pub fn get_border(&self, row: usize, col: usize) -> (r: Border<char>)
        ensures
            r == self.cell_border_spec(row as int, col as int),
    {
        match find_in_cells(&self.border_chars, row, col) {
            Some(b) => *b,
            None => Border::empty(),
        }
    }

    /// Stores border glyph overrides for the cell `(row, col)`.
    pub fn set_border(&mut self, row: usize, col: usize, border: Border<char>)
        ensures
            final(self).border_chars@ == old(self).border_chars@.push((row, col, border)),
            final(self).tab_width == old(self).tab_width,
            final(self).margin == old(self).margin,
            final(self).borders == old(self).borders,
            final(self).padding == old(self).padding,
            final(self).alignment_h == old(self).alignment_h,
            final(self).alignment_v == old(self).alignment_v,
            final(self).formatting == old(self).formatting,
            final(self).text_color == old(self).text_color,
            final(self).border_colors == old(self).border_colors,
            final(self).span_columns == old(self).span_columns,
            final(self).span_rows == old(self).span_rows,
    {
        self.border_chars.push((row, col, border));
    }

    /// The border color overrides of the cell `(row, col)`.
    pub open spec fn cell_border_color_spec(self, row: int, col: int) -> Border<ColorPair> {
        match find_cell_keyed(self.border_colors@, row, col) {
            Some(b) => b,
            None => Border::empty_spec(),
        }
    }

    /// Stores border color overrides for the cell `(row, col)`.
    pub fn set_border_color(&mut self, row: usize, col: usize, border: Border<ColorPair>)
        ensures
            final(self).border_colors@ == old(self).border_colors@.push((row, col, border)),
            final(self).tab_width == old(self).tab_width,
            final(self).margin == old(self).margin,
            final(self).borders == old(self).borders,
            final(self).padding == old(self).padding,
            final(self).alignment_h == old(self).alignment_h,
            final(self).alignment_v == old(self).alignment_v,
            final(self).formatting == old(self).formatting,
            final(self).text_color == old(self).text_color,
            final(self).border_chars == old(self).border_chars,
            final(self).span_columns == old(self).span_columns,
            final(self).span_rows == old(self).span_rows,
    {
        self.border_colors.push((row, col, border));
    }

    /// The column span stored at `(row, col)`: two or more columns, or none.
    pub open spec fn span_column_spec(self, row: int, col: int) -> Option<nat> {
        match find_cell_keyed(self.span_columns@, row, col) {
            Some(s) => if s > 1 {
                Some(s as nat)
            } else {
                None
            },
            None => None,
        }
    }

    /// The column span stored at `(row, col)`, if it covers two or more
    /// columns.
    pub fn get_span_column(&self, row: usize, col: usize) -> (r: Option<usize>)
        ensures
            match r {
                Some(s) => self.span_column_spec(row as int, col as int) == Some(s as nat),
                None => self.span_column_spec(row as int, col as int) is None,
            },
    {
        match find_in_cells(&self.span_columns, row, col) {
            Some(s) => if *s > 1 {
                Some(*s)
            } else {
                None
            },
            None => None,
        }
    }

    /// Stores a column span at `(row, col)`; a size below two clears it.
    pub fn set_column_span(&mut self, row: usize, col: usize, size: usize)
        ensures
            final(self).span_columns@ == old(self).span_columns@.push((row, col, size)),
            final(self).tab_width == old(self).tab_width,
            final(self).margin == old(self).margin,
            final(self).borders == old(self).borders,
            final(self).padding == old(self).padding,
            final(self).alignment_h == old(self).alignment_h,
            final(self).alignment_v == old(self).alignment_v,
            final(self).formatting == old(self).formatting,
            final(self).text_color == old(self).text_color,
            final(self).border_chars == old(self).border_chars,
            final(self).border_colors == old(self).border_colors,
            final(self).span_rows == old(self).span_rows,
    {
        self.span_columns.push((row, col, size));
    }

    /// The row span stored at `(row, col)`: two or more rows, or none.
    pub open spec fn span_row_spec(self, row: int, col: int) -> Option<nat> {
        match find_cell_keyed(self.span_rows@, row, col) {
            Some(s) => if s > 1 {
                Some(s as nat)
            } else {
                None
            },
            None => None,
        }
    }

    /// The row span stored at `(row, col)`, if it covers two or more rows.
    pub fn get_span_row(&self, row: usize, col: usize) -> (r: Option<usize>)
        ensures
            match r {
                Some(s) => self.span_row_spec(row as int, col as int) == Some(s as nat),
                None => self.span_row_spec(row as int, col as int) is None,
            },
    {
        match find_in_cells(&self.span_rows, row, col) {
            Some(s) => if *s > 1 {
                Some(*s)
            } else {
                None
            },
            None => None,
        }
    }

    /// Whether the vertical grid line at boundary `i` (`0 ..= ncols`)
    /// exists: a global glyph is configured for its position, or some cell
    /// beside it overrides the adjacent edge.  A line that exists occupies
    /// one column of width in every rendered row.
    pub open spec fn has_vertical_spec(self, i: int, nrows: int, ncols: int) -> bool {
        ||| (exists|r: int|
            0 <= r < nrows && ((i < ncols && (#[trigger] self.cell_border_spec(r, i)).left is Some)
                || (i > 0 && self.cell_border_spec(r, i - 1).right is Some)))
        ||| (if i == 0 {
            self.borders.vertical_left is Some
        } else if i == ncols {
            self.borders.vertical_right is Some
        } else {
            self.borders.vertical is Some
        })
    }

    /// Whether the vertical grid line at boundary `i` exists.
    pub fn has_vertical(&self, i: usize, nrows: usize, ncols: usize) -> (r: bool)
        requires
            i <= ncols,
        ensures
            r == self.has_vertical_spec(i as int, nrows as int, ncols as int),
    {
        let global: bool = if i == 0 {
            self.borders.vertical_left.is_some()
        } else if i == ncols {
            self.borders.vertical_right.is_some()
        } else {
            self.borders.vertical.is_some()
        };
        if global {
            return true;
        }
        let mut r: usize = 0;
        while r < nrows
            invariant
                r <= nrows,
                forall|k: int|
                    0 <= k < r ==> !((i < ncols && (#[trigger] self.cell_border_spec(
                        k,
                        i as int,
                    )).left is Some) || (i > 0 && self.cell_border_spec(k, i - 1).right is Some)),
            decreases nrows - r,
        {
            if i < ncols && self.get_border(r, i).left.is_some() {
                proof {
                    assert((i as int) < ncols && (#[trigger] self.cell_border_spec(
                        r as int,
                        i as int,
                    )).left is Some);
                }
                return true;
            }
            if i > 0 && self.get_border(r, i - 1).right.is_some() {
                proof {
                    let b = #[trigger] self.cell_border_spec(r as int, i as int);
                    assert(i > 0 && self.cell_border_spec(r as int, i - 1).right is Some);
                }
                return true;
            }
            r = r + 1;
        }
        false
    }

    /// Whether the horizontal grid line at boundary `r` (`0 ..= nrows`)
    /// exists: a global glyph is configured for its position, or some cell
    /// beside it overrides the adjacent edge.  A line that exists occupies
    /// one separator line in the rendered output.
    pub open spec fn has_horizontal_spec(self, r: int, nrows: int, ncols: int) -> bool {
        ||| (exists|c: int|
            0 <= c < ncols && ((r < nrows && (#[trigger] self.cell_border_spec(r, c)).top is Some)
                || (r > 0 && self.cell_border_spec(r - 1, c).bottom is Some)))
        ||| (if r == 0 {
            self.borders.top is Some
        } else if r == nrows {
            self.borders.bottom is Some
        } else {
            self.borders.horizontal is Some
        })
    }

    /// Whether the horizontal grid line at boundary `r` exists.
    pub fn has_horizontal(&self, r: usize, nrows: usize, ncols: usize) -> (res: bool)
        requires
            r <= nrows,
        ensures
            res == self.has_horizontal_spec(r as int, nrows as int, ncols as int),
    {
        let global: bool = if r == 0 {
            self.borders.top.is_some()
        } else if r == nrows {
            self.borders.bottom.is_some()
        } else {
            self.borders.horizontal.is_some()
        };
        if global {
            return true;
        }
        let mut c: usize = 0;
        while c < ncols
            invariant
                c <= ncols,
                forall|k: int|
                    0 <= k < c ==> !((r < nrows && (#[trigger] self.cell_border_spec(
                        r as int,
                        k,
                    )).top is Some) || (r > 0 && self.cell_border_spec(r - 1, k).bottom is Some)),
            decreases ncols - c,
        {
            if r < nrows && self.get_border(r, c).top.is_some() {
                proof {
                    assert((r as int) < nrows && (#[trigger] self.cell_border_spec(
                        r as int,
                        c as int,
                    )).top is Some);
                }
                return true;
            }
            if r > 0 && self.get_border(r - 1, c).bottom.is_some() {
                proof {
                    let b = #[trigger] self.cell_border_spec(r as int, c as int);
                    assert(r > 0 && self.cell_border_spec(r - 1, c as int).bottom is Some);
                }
                return true;
            }
            c = c + 1;
        }
        false
    }

    /// Stores a row span at `(row, col)`; a size below two clears it.
    pub fn set_row_span(&mut self, row: usize, col: usize, size: usize)
        ensures
            final(self).span_rows@ == old(self).span_rows@.push((row, col, size)),
            final(self).tab_width == old(self).tab_width,
            final(self).margin == old(self).margin,
            final(self).borders == old(self).borders,
            final(self).padding == old(self).padding,
            final(self).alignment_h == old(self).alignment_h,
            final(self).alignment_v == old(self).alignment_v,
            final(self).formatting == old(self).formatting,
            final(self).text_color == old(self).text_color,
            final(self).border_chars == old(self).border_chars,
            final(self).border_colors == old(self).border_colors,
            final(self).span_columns == old(self).span_columns,
    {
        self.span_rows.push((row, col, size));
    }
}

} // verus!
