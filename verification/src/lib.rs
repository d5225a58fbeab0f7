//! A text-table layout engine.
//!
//! The crate lays out a grid of text cells (possibly multi-line) into an
//! aligned, border-decorated block of text.  The pipeline is:
//! a record grid plus a grid configuration are estimated to per-column widths
//! and per-row heights, optionally adjusted under a total-width budget, and
//! then rendered to a single string.
//!
//! Widths are measured in characters: every character counts as one column,
//! tabs are expanded to the configured tab width before measuring, and colors
//! are carried out of band (they never count toward widths).

pub mod align_setting;
pub mod ansi;
pub mod border_colored;
pub mod config;
pub mod entity;
pub mod estimate;
pub mod format_setting;
pub mod iter_table;
pub mod laws;
pub mod formatting;
pub mod margin_setting;
pub mod panel;
pub mod records;
pub mod render;
pub mod rotate;
pub mod span_setting;
pub mod static_color;
pub mod table;
pub mod text;
pub mod truncate;
pub mod width_list;
