//! The alignment setting: horizontal or vertical, applied to any entity.

use vstd::prelude::*;

use crate::config::AlignmentHorizontal;
use crate::config::AlignmentVertical;
use crate::config::GridConfig;
use crate::entity::Entity;
use crate::entity::EntityMap;

verus! {

/// A horizontal or vertical alignment for the cells an entity covers.
#[derive(Clone, Copy, Debug, PartialEq, Eq, Structural)]
pub struct Alignment {
    /// The direction and kind of the alignment.
    pub inner: AlignmentInner,
}

/// One of the two alignment axes.
#[derive(Clone, Copy, Debug, PartialEq, Eq, Structural)]
pub enum AlignmentInner {
    /// An alignment along a row.
    Horizontal(AlignmentHorizontal),
    /// An alignment along a column.
    Vertical(AlignmentVertical),
}

impl Alignment {
    /// Content aligned to the left edge.
    pub fn left() -> (r: Alignment)
        ensures
            r.is_horizontal_spec(AlignmentHorizontal::Left),
    {
        Self::horizontal(AlignmentHorizontal::Left)
    }

    /// Content aligned to the right edge.
    pub fn right() -> (r: Alignment)
        ensures
            r.is_horizontal_spec(AlignmentHorizontal::Right),
    {
        Self::horizontal(AlignmentHorizontal::Right)
    }

    /// Content centered between the edges.
    pub fn center() -> (r: Alignment)
        ensures
            r.is_horizontal_spec(AlignmentHorizontal::Center),
    {
        Self::horizontal(AlignmentHorizontal::Center)
    }

    /// Content aligned to the top.
    pub fn top() -> (r: Alignment)
        ensures
            r.is_vertical_spec(AlignmentVertical::Top),
    {
        Self::vertical(AlignmentVertical::Top)
    }

    /// Content aligned to the bottom.
    pub fn bottom() -> (r: Alignment)
        ensures
            r.is_vertical_spec(AlignmentVertical::Bottom),
    {
        Self::vertical(AlignmentVertical::Bottom)
    }

    /// Content centered between top and bottom.
    pub fn center_vertical() -> (r: Alignment)
        ensures
            r.is_vertical_spec(AlignmentVertical::Center),
    {
        Self::vertical(AlignmentVertical::Center)
    }

    /// Whether this is the given horizontal alignment.
    pub open spec fn is_horizontal_spec(self, a: AlignmentHorizontal) -> bool {
        self.inner == AlignmentInner::Horizontal(a)
    }

    /// Whether this is the given vertical alignment.
    pub open spec fn is_vertical_spec(self, a: AlignmentVertical) -> bool {
        self.inner == AlignmentInner::Vertical(a)
    }

    fn horizontal(alignment: AlignmentHorizontal) -> (r: Alignment)
        ensures
            r.is_horizontal_spec(alignment),
    {
        Self::new(AlignmentInner::Horizontal(alignment))
    }

    fn vertical(alignment: AlignmentVertical) -> (r: Alignment)
        ensures
            r.is_vertical_spec(alignment),
    {
        Self::new(AlignmentInner::Vertical(alignment))
    }

    fn new(inner: AlignmentInner) -> (r: Alignment)
        ensures
            r.inner == inner,
    {
        Alignment { inner }
    }

    /// Stores the alignment for every cell the entity covers: the
    /// horizontal table gains an entry for a horizontal alignment, the
    /// vertical one otherwise; everything else is untouched.
    pub fn change(&self, cfg: &mut GridConfig, entity: Entity)
        ensures
            match self.inner {
                AlignmentInner::Horizontal(a) => EntityMap::inserted_spec(
                    old(cfg).alignment_h,
                    final(cfg).alignment_h,
                    entity,
                    a,
                ) && final(cfg).alignment_v == old(cfg).alignment_v,
                AlignmentInner::Vertical(a) => EntityMap::inserted_spec(
                    old(cfg).alignment_v,
                    final(cfg).alignment_v,
                    entity,
                    a,
                ) && final(cfg).alignment_h == old(cfg).alignment_h,
            },
            final(cfg).tab_width == old(cfg).tab_width,
            final(cfg).margin == old(cfg).margin,
            final(cfg).borders == old(cfg).borders,
            final(cfg).padding == old(cfg).padding,
            final(cfg).formatting == old(cfg).formatting,
            final(cfg).text_color == old(cfg).text_color,
            final(cfg).border_chars == old(cfg).border_chars,
            final(cfg).border_colors == old(cfg).border_colors,
            final(cfg).span_columns == old(cfg).span_columns,
            final(cfg).span_rows == old(cfg).span_rows,
    {
        match self.inner {
            AlignmentInner::Horizontal(a) => cfg.set_alignment_horizontal(entity, a),
            AlignmentInner::Vertical(a) => cfg.set_alignment_vertical(entity, a),
        }
    }
}

} // verus!
