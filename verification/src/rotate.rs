//! Rotation of a table's records by quarter and half turns.

use vstd::prelude::*;

use crate::records::Records;

verus! {

/// A rotation of the record grid.  `Left` and `Right` are quarter turns;
/// `Top` and `Bottom` both flip the order of the rows, so either undoes
/// the other.
#[derive(Clone, Copy, Debug)]
pub enum Rotate {
    /// A quarter turn counterclockwise.
    Left,
    /// A quarter turn clockwise.
    Right,
    /// Flip the rows (named for pulling the last row to the top).
    Top,
    /// Flip the rows (named for pushing the first row to the bottom).
    Bottom,
}

/// What a rotation does to the grid: `Left` and `Right` transpose the
/// axes, `Top` and `Bottom` flip the row order.
pub open spec fn rotated_spec(rot: Rotate, pre: Records, post: Records) -> bool {
    match rot {
        Rotate::Left => {
            &&& post.row_count_spec() == pre.col_count_spec()
            &&& post.col_count_spec() == pre.row_count_spec()
            &&& forall|i: int, j: int|
                0 <= i < post.row_count_spec() && 0 <= j < post.col_count_spec()
                    ==> #[trigger] post.grid()[i][j] == pre.grid()[j][pre.col_count_spec() - 1 - i]
        },
        Rotate::Right => {
            &&& post.row_count_spec() == pre.col_count_spec()
            &&& post.col_count_spec() == pre.row_count_spec()
            &&& forall|i: int, j: int|
                0 <= i < post.row_count_spec() && 0 <= j < post.col_count_spec()
                    ==> #[trigger] post.grid()[i][j] == pre.grid()[pre.row_count_spec() - 1 - j][i]
        },
        Rotate::Top | Rotate::Bottom => {
            &&& post.row_count_spec() == pre.row_count_spec()
            &&& post.col_count_spec() == pre.col_count_spec()
            &&& forall|i: int, j: int|
                0 <= i < post.row_count_spec() && 0 <= j < post.col_count_spec()
                    ==> #[trigger] post.grid()[i][j] == pre.grid()[pre.row_count_spec() - 1 - i][j]
        },
    }
}

impl Rotate {
    /// Replaces the records with their rotation.  The configuration is
    /// left untouched: a rotation moves content only.
    pub fn change(&self, records: &mut Records)
        requires
            old(records).wf(),
        ensures
            final(records).wf(),
            rotated_spec(*self, *old(records), *final(records)),
    {
        match self {
            Rotate::Left => {
                *records = records.rotated_left();
            },
            Rotate::Right => {
                *records = records.rotated_right();
            },
            Rotate::Top => {
                *records = records.reversed_rows();
            },
            Rotate::Bottom => {
                *records = records.reversed_rows();
            },
        }
    }
}

} // verus!
