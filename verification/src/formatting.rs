//! Render-strategy settings: tab size, per-line alignment, trimming.

use vstd::prelude::*;

use crate::config::Formatting;
use crate::config::GridConfig;
use crate::entity::Entity;
use crate::entity::EntityMap;

verus! {

/// The width a tab character expands to.
#[derive(Clone, Copy, Debug)]
pub struct TabSize(pub usize);

impl TabSize {
    /// Sets the tab width of the whole grid.
    pub fn change(&self, cfg: &mut GridConfig)
        ensures
            *final(cfg) == (GridConfig { tab_width: self.0, ..*old(cfg) }),
    {
        cfg.set_tab_width(self.0);
    }
}

/// How alignment is applied to multi-line content.
#[derive(Clone, Copy, Debug, PartialEq, Eq, Structural)]
pub enum AlignmentStrategy {
    /// Align the block of lines as a whole.
    PerCell,
    /// Align every line on its own.
    PerLine,
}

impl AlignmentStrategy {
    /// Flips the per-line flag of the formatting stored for the entity,
    /// keeping its trim flags.
    pub fn change_cell(&self, cfg: &mut GridConfig, entity: Entity)
        ensures
            EntityMap::inserted_spec(
                old(cfg).formatting,
                final(cfg).formatting,
                entity,
                (Formatting {
                    allow_lines_alignment: *self is PerLine,
                    ..old(cfg).formatting.lookup_entity_spec(entity)
                }),
            ),
            final(cfg).tab_width == old(cfg).tab_width,
            final(cfg).margin == old(cfg).margin,
            final(cfg).borders == old(cfg).borders,
            final(cfg).padding == old(cfg).padding,
            final(cfg).alignment_h == old(cfg).alignment_h,
            final(cfg).alignment_v == old(cfg).alignment_v,
            final(cfg).text_color == old(cfg).text_color,
            final(cfg).border_chars == old(cfg).border_chars,
            final(cfg).border_colors == old(cfg).border_colors,
            final(cfg).span_columns == old(cfg).span_columns,
            final(cfg).span_rows == old(cfg).span_rows,
    {
        let mut formatting = *cfg.formatting.lookup_entity(entity);
        match self {
            AlignmentStrategy::PerCell => {
                formatting.allow_lines_alignment = false;
            },
            AlignmentStrategy::PerLine => {
                formatting.allow_lines_alignment = true;
            },
        }
        cfg.set_formatting(entity, formatting);
    }
}

/// Whether blank edges of cell content may be dropped before alignment.
#[derive(Clone, Copy, Debug, PartialEq, Eq, Structural)]
pub enum TrimStrategy {
    /// Drop blank lines around the content.
    Vertical,
    /// Drop blanks around every line.
    Horizontal,
    /// Both of the above.
    Both,
    /// Keep everything.
    Neither,
}

impl TrimStrategy {
    /// What the strategy does to a formatting value: it switches the trim
    /// flags it speaks of and leaves the rest.
    pub open spec fn applied_spec(self, f: Formatting) -> Formatting {
        match self {
            TrimStrategy::Vertical => Formatting { vertical_trim: true, ..f },
            TrimStrategy::Horizontal => Formatting { horizontal_trim: true, ..f },
            TrimStrategy::Both => Formatting { vertical_trim: true, horizontal_trim: true, ..f },
            TrimStrategy::Neither => Formatting { vertical_trim: false, horizontal_trim: false, ..f },
        }
    }

    /// Switches the trim flags of the formatting stored for the entity.
    pub fn change(&self, cfg: &mut GridConfig, entity: Entity)
        ensures
            EntityMap::inserted_spec(
                old(cfg).formatting,
                final(cfg).formatting,
                entity,
                self.applied_spec(old(cfg).formatting.lookup_entity_spec(entity)),
            ),
            final(cfg).tab_width == old(cfg).tab_width,
            final(cfg).margin == old(cfg).margin,
            final(cfg).borders == old(cfg).borders,
            final(cfg).padding == old(cfg).padding,
            final(cfg).alignment_h == old(cfg).alignment_h,
            final(cfg).alignment_v == old(cfg).alignment_v,
            final(cfg).text_color == old(cfg).text_color,
            final(cfg).border_chars == old(cfg).border_chars,
            final(cfg).border_colors == old(cfg).border_colors,
            final(cfg).span_columns == old(cfg).span_columns,
            final(cfg).span_rows == old(cfg).span_rows,
    {
        let mut formatting = *cfg.formatting.lookup_entity(entity);
        match self {
            TrimStrategy::Vertical => {
                formatting.vertical_trim = true;
            },
            TrimStrategy::Horizontal => {
                formatting.horizontal_trim = true;
            },
            TrimStrategy::Both => {
                formatting.vertical_trim = true;
                formatting.horizontal_trim = true;
            },
            TrimStrategy::Neither => {
                formatting.vertical_trim = false;
                formatting.horizontal_trim = false;
            },
        }
        cfg.set_formatting(entity, formatting);
    }
}

} // verus!
