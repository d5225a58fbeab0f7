//! Configuration targets and per-target property tables.
//!
//! An [`Entity`] names the positions a setting applies to: the whole grid, a
//! row, a column, or one cell.  An [`EntityMap`] stores one property per
//! entity and resolves a position with the fixed precedence
//! cell, then row, then column, then global.

use vstd::prelude::*;

verus! {

/// A configuration target: the whole grid, one column, one row, or one cell.
#[derive(Clone, Copy, Debug, PartialEq, Eq, Structural)]
pub enum Entity {
    /// Every position of the grid.
    Global,
    /// Every position of one column.
    Column(usize),
    /// Every position of one row.
    Row(usize),
    /// One position.
    Cell(usize, usize),
}

impl Entity {
    /// Whether this entity covers the position `(row, col)`.
    pub open spec fn contains_spec(self, row: int, col: int) -> bool {
        match self {
            Entity::Global => true,
            Entity::Column(c) => c == col,
            Entity::Row(r) => r == row,
            Entity::Cell(r, c) => r == row && c == col,
        }
    }

    /// Whether this entity covers the position `(row, col)`.
    pub fn contains(&self, row: usize, col: usize) -> (r: bool)
        ensures
            r == self.contains_spec(row as int, col as int),
    {
        match self {
            Entity::Global => true,
            Entity::Column(c) => *c == col,
            Entity::Row(r) => *r == row,
            Entity::Cell(r, c) => *r == row && *c == col,
        }
    }
}

/// The positions of one row that an entity covers, among the columns
/// `0 .. c`.
pub open spec fn positions_in_row(entity: Entity, row: usize, c: int, ncols: int) -> Seq<
    (usize, usize),
>
    decreases c,
{
    if c <= 0 {
        Seq::empty()
    } else {
        positions_in_row(entity, row, c - 1, ncols) + (if entity.contains_spec(
            row as int,
            c - 1,
        ) {
            seq![(row, (c - 1) as usize)]
        } else {
            Seq::empty()
        })
    }
}

/// The positions an entity covers among the rows `0 .. r`, in row-major
/// order.
pub open spec fn positions_upto(entity: Entity, r: int, nrows: int, ncols: int) -> Seq<
    (usize, usize),
>
    decreases r,
{
    if r <= 0 {
        Seq::empty()
    } else {
        positions_upto(entity, r - 1, nrows, ncols) + positions_in_row(
            entity,
            (r - 1) as usize,
            ncols,
            ncols,
        )
    }
}

impl Entity {
    /// Lists every position of an `nrows` by `ncols` grid the entity
    /// covers, in row-major order.  An out-of-range target covers
    /// nothing.
    pub fn positions(&self, nrows: usize, ncols: usize) -> (r: Vec<(usize, usize)>)
        ensures
            r@ == positions_upto(*self, nrows as int, nrows as int, ncols as int),
    {
        let mut out: Vec<(usize, usize)> = Vec::new();
        let mut row: usize = 0;
        proof {
            assert(out@ =~= positions_upto(*self, 0, nrows as int, ncols as int));
        }
        while row < nrows
            invariant
                row <= nrows,
                out@ == positions_upto(*self, row as int, nrows as int, ncols as int),
            decreases nrows - row,
        {
            let mut col: usize = 0;
            let ghost base = out@;
            proof {
                assert(base + positions_in_row(*self, row, 0, ncols as int) =~= base);
            }
            while col < ncols
                invariant
                    col <= ncols,
                    row < nrows,
                    out@ == base + positions_in_row(*self, row, col as int, ncols as int),
                decreases ncols - col,
            {
                if self.contains(row, col) {
                    out.push((row, col));
                }
                proof {
                    assert(out@ =~= base + positions_in_row(*self, row, col + 1, ncols as int));
                }
                col = col + 1;
            }
            row = row + 1;
        }
        out
    }
}

/// Row-keyed entries with every key at or below `target` moved down one
/// row.
pub open spec fn shift_keyed_rows<T>(entries: Seq<(usize, T)>, target: usize) -> Seq<(usize, T)> {
    entries.map_values(
        |e: (usize, T)|
            if e.0 >= target {
                (crate::text::sadd(e.0, 1), e.1)
            } else {
                e
            },
    )
}

/// Cell-keyed entries with every row at or below `target` moved down one
/// row.
pub open spec fn shift_cell_rows<T>(entries: Seq<(usize, usize, T)>, target: usize) -> Seq<
    (usize, usize, T),
> {
    entries.map_values(
        |e: (usize, usize, T)|
            if e.0 >= target {
                (crate::text::sadd(e.0, 1), e.1, e.2)
            } else {
                e
            },
    )
}

/// Moves every row-keyed entry at or below `target` down one row.
pub fn shift_keyed_entries_down<T>(entries: &mut Vec<(usize, T)>, target: usize)
    ensures
        final(entries)@ == shift_keyed_rows(old(entries)@, target),
{
    let total = entries.len();
    let ghost orig = entries@;
    let mut out: Vec<(usize, T)> = Vec::new();
    let mut i: usize = 0;
    proof {
        assert(entries@ =~= orig.skip(0));
        assert(out@ =~= shift_keyed_rows(orig, target).take(0));
    }
    while entries.len() > 0
        invariant
            orig.len() == total,
            i + entries@.len() == orig.len(),
            entries@ == orig.skip(i as int),
            out@ == shift_keyed_rows(orig, target).take(i as int),
        decreases entries@.len(),
    {
        let e = entries.remove(0);
        proof {
            assert(orig.skip(i as int)[0] == orig[i as int]);
            assert(orig.skip(i as int).remove(0) =~= orig.skip(i + 1));
        }
        if e.0 >= target {
            out.push((crate::text::usat_add(e.0, 1), e.1));
        } else {
            out.push(e);
        }
        proof {
            assert(out@ =~= shift_keyed_rows(orig, target).take(i + 1));
        }
        i = i + 1;
    }
    proof {
        assert(shift_keyed_rows(orig, target).take(orig.len() as int) =~= shift_keyed_rows(
            orig,
            target,
        ));
    }
    *entries = out;
}

/// Moves every cell-keyed entry at or below row `target` down one row.
pub fn shift_cell_entries_down<T>(entries: &mut Vec<(usize, usize, T)>, target: usize)
    ensures
        final(entries)@ == shift_cell_rows(old(entries)@, target),
{
    let total = entries.len();
    let ghost orig = entries@;
    let mut out: Vec<(usize, usize, T)> = Vec::new();
    let mut i: usize = 0;
    proof {
        assert(entries@ =~= orig.skip(0));
        assert(out@ =~= shift_cell_rows(orig, target).take(0));
    }
    while entries.len() > 0
        invariant
            orig.len() == total,
            i + entries@.len() == orig.len(),
            entries@ == orig.skip(i as int),
            out@ == shift_cell_rows(orig, target).take(i as int),
        decreases entries@.len(),
    {
        let e = entries.remove(0);
        proof {
            assert(orig.skip(i as int)[0] == orig[i as int]);
            assert(orig.skip(i as int).remove(0) =~= orig.skip(i + 1));
        }
        if e.0 >= target {
            out.push((crate::text::usat_add(e.0, 1), e.1, e.2));
        } else {
            out.push(e);
        }
        proof {
            assert(out@ =~= shift_cell_rows(orig, target).take(i + 1));
        }
        i = i + 1;
    }
    proof {
        assert(shift_cell_rows(orig, target).take(orig.len() as int) =~= shift_cell_rows(
            orig,
            target,
        ));
    }
    *entries = out;
}

/// What moving a table's rows down from `target` does to it: the global
/// and per-column values stay, the per-row and per-cell entries follow
/// their rows.
pub open spec fn rows_shifted_spec<T>(pre: EntityMap<T>, post: EntityMap<T>, target: usize) -> bool {
    &&& post.global == pre.global
    &&& post.columns@ == pre.columns@
    &&& post.rows@ == shift_keyed_rows(pre.rows@, target)
    &&& post.cells@ == shift_cell_rows(pre.cells@, target)
}

/// The last value stored for row `key`, if any.
pub open spec fn find_keyed<T>(entries: Seq<(usize, T)>, key: int) -> Option<T>
    decreases entries.len(),
{
    if entries.len() == 0 {
        None
    } else if entries.last().0 == key {
        Some(entries.last().1)
    } else {
        find_keyed(entries.drop_last(), key)
    }
}

/// The last value stored for the cell `(row, col)`, if any.
pub open spec fn find_cell_keyed<T>(entries: Seq<(usize, usize, T)>, row: int, col: int) -> Option<
    T,
>
    decreases entries.len(),
{
    if entries.len() == 0 {
        None
    } else if entries.last().0 == row && entries.last().1 == col {
        Some(entries.last().2)
    } else {
        find_cell_keyed(entries.drop_last(), row, col)
    }
}

/// Finds the latest entry stored for `key`.
pub fn find_in_keyed<T>(entries: &Vec<(usize, T)>, key: usize) -> (r: Option<&T>)
    ensures
        match r {
            Some(v) => find_keyed(entries@, key as int) == Some(*v),
            None => find_keyed(entries@, key as int) is None,
        },
{
    let mut i: usize = entries.len();
    proof {
        assert(entries@.take(i as int) =~= entries@);
    }
    while i > 0
        invariant
            i <= entries@.len(),
            find_keyed(entries@, key as int) == find_keyed(entries@.take(i as int), key as int),
        decreases i,
    {
        i = i - 1;
        let entry = &entries[i];
        proof {
            assert(entries@.take(i + 1).last() == entries@[i as int]);
            assert(entries@.take(i + 1).drop_last() =~= entries@.take(i as int));
        }
        if entry.0 == key {
            return Some(&entries[i].1);
        }
    }
    proof {
        assert(entries@.take(0) =~= Seq::<(usize, T)>::empty());
    }
    None
}

/// Finds the latest entry stored for the cell `(row, col)`.
pub fn find_in_cells<T>(entries: &Vec<(usize, usize, T)>, row: usize, col: usize) -> (r: Option<
    &T,
>)
    ensures
        match r {
            Some(v) => find_cell_keyed(entries@, row as int, col as int) == Some(*v),
            None => find_cell_keyed(entries@, row as int, col as int) is None,
        },
{
    let mut i: usize = entries.len();
    proof {
        assert(entries@.take(i as int) =~= entries@);
    }
    while i > 0
        invariant
            i <= entries@.len(),
            find_cell_keyed(entries@, row as int, col as int) == find_cell_keyed(
                entries@.take(i as int),
                row as int,
                col as int,
            ),
        decreases i,
    {
        i = i - 1;
        let entry = &entries[i];
        proof {
            assert(entries@.take(i + 1).last() == entries@[i as int]);
            assert(entries@.take(i + 1).drop_last() =~= entries@.take(i as int));
        }
        if entry.0 == row && entry.1 == col {
            return Some(&entries[i].2);
        }
    }
    proof {
        assert(entries@.take(0) =~= Seq::<(usize, usize, T)>::empty());
    }
    None
}

/// A property table indexed by [`Entity`].
///
/// `global` is the fallback value; the sparse lists hold overrides, the
/// latest entry for a key winning over earlier ones.
pub struct EntityMap<T> {
    /// The value used when no override matches.
    pub global: T,
    /// Per-row overrides.
    pub rows: Vec<(usize, T)>,
    /// Per-column overrides.
    pub columns: Vec<(usize, T)>,
    /// Per-cell overrides.
    pub cells: Vec<(usize, usize, T)>,
}

impl<T> EntityMap<T> {
    /// The value that applies at `(row, col)`: the cell override if any,
    /// else the row override, else the column override, else the global
    /// value.
    pub open spec fn lookup_spec(self, row: int, col: int) -> T {
        match find_cell_keyed(self.cells@, row, col) {
            Some(v) => v,
            None => match find_keyed(self.rows@, row) {
                Some(v) => v,
                None => match find_keyed(self.columns@, col) {
                    Some(v) => v,
                    None => self.global,
                },
            },
        }
    }

    /// Creates a table holding `global` for every position.
    pub fn new(global: T) -> (r: EntityMap<T>)
        ensures
            r.global == global,
            r.rows@ =~= Seq::<(usize, T)>::empty(),
            r.columns@ =~= Seq::<(usize, T)>::empty(),
            r.cells@ =~= Seq::<(usize, usize, T)>::empty(),
    {
        EntityMap { global, rows: Vec::new(), columns: Vec::new(), cells: Vec::new() }
    }

    /// The table after storing `value` for `entity`, described field by
    /// field.
    pub open spec fn inserted_spec(pre: EntityMap<T>, post: EntityMap<T>, entity: Entity, value: T) -> bool {
        &&& post.global == (if entity is Global {
            value
        } else {
            pre.global
        })
        &&& post.rows@ == (match entity {
            Entity::Row(r) => pre.rows@.push((r, value)),
            _ => pre.rows@,
        })
        &&& post.columns@ == (match entity {
            Entity::Column(c) => pre.columns@.push((c, value)),
            _ => pre.columns@,
        })
        &&& post.cells@ == (match entity {
            Entity::Cell(r, c) => pre.cells@.push((r, c, value)),
            _ => pre.cells@,
        })
    }

    /// Moves every per-row and per-cell entry at or below row `target`
    /// down one row; the global and per-column values stay.
    pub fn shift_rows_down(&mut self, target: usize)
        ensures
            rows_shifted_spec(*old(self), *final(self), target),
    {
        shift_keyed_entries_down(&mut self.rows, target);
        shift_cell_entries_down(&mut self.cells, target);
    }

    /// Stores `value` for `entity`; the latest entry for a key wins.
    pub fn insert(&mut self, entity: Entity, value: T)
        ensures
            Self::inserted_spec(*old(self), *final(self), entity, value),
    {
        match entity {
            Entity::Global => {
                self.global = value;
            },
            Entity::Row(row) => {
                self.rows.push((row, value));
            },
            Entity::Column(col) => {
                self.columns.push((col, value));
            },
            Entity::Cell(row, col) => {
                self.cells.push((row, col, value));
            },
        }
    }

    /// After an insert for `entity`, a position it covers resolves to the
    /// new value unless a more specific override already shadowed it; any
    /// other position resolves as before.
    pub proof fn lemma_insert_lookup(pre: EntityMap<T>, post: EntityMap<T>, entity: Entity, value: T, r: int, c: int)
        requires
            Self::inserted_spec(pre, post, entity, value),
        ensures
            post.lookup_spec(r, c) == if !entity.contains_spec(r, c) {
                pre.lookup_spec(r, c)
            } else {
                match entity {
                    Entity::Cell(_, _) => value,
                    Entity::Row(_) => if find_cell_keyed(pre.cells@, r, c) is Some {
                        pre.lookup_spec(r, c)
                    } else {
                        value
                    },
                    Entity::Column(_) => if find_cell_keyed(pre.cells@, r, c) is Some || find_keyed(
                        pre.rows@,
                        r,
                    ) is Some {
                        pre.lookup_spec(r, c)
                    } else {
                        value
                    },
                    Entity::Global => if find_cell_keyed(pre.cells@, r, c) is Some || find_keyed(
                        pre.rows@,
                        r,
                    ) is Some || find_keyed(pre.columns@, c) is Some {
                        pre.lookup_spec(r, c)
                    } else {
                        value
                    },
                }
            },
    {
        match entity {
            Entity::Global => {
            },
            Entity::Row(row) => {
                if r != row {
                    assert(post.rows@.drop_last() =~= pre.rows@);
                } else {
                    assert(find_keyed(post.rows@, r) == Some(value));
                }
            },
            Entity::Column(col) => {
                if c != col {
                    assert(post.columns@.drop_last() =~= pre.columns@);
                } else {
                    assert(find_keyed(post.columns@, c) == Some(value));
                }
            },
            Entity::Cell(row, col) => {
                if r != row || c != col {
                    assert(post.cells@.drop_last() =~= pre.cells@);
                } else {
                    assert(find_cell_keyed(post.cells@, r, c) == Some(value));
                }
            },
        }
    }

    /// The value stored for the entity itself: the override for the row,
    /// column or cell when one is set, else the global value.
    pub open spec fn lookup_entity_spec(self, entity: Entity) -> T {
        match entity {
            Entity::Global => self.global,
            Entity::Row(r) => match find_keyed(self.rows@, r as int) {
                Some(v) => v,
                None => self.global,
            },
            Entity::Column(c) => match find_keyed(self.columns@, c as int) {
                Some(v) => v,
                None => self.global,
            },
            Entity::Cell(r, c) => self.lookup_spec(r as int, c as int),
        }
    }

    /// Resolves the value stored for the entity itself.
    pub fn lookup_entity(&self, entity: Entity) -> (r: &T)
        ensures
            *r == self.lookup_entity_spec(entity),
    {
        match entity {
            Entity::Global => &self.global,
            Entity::Row(row) => match find_in_keyed(&self.rows, row) {
                Some(v) => v,
                None => &self.global,
            },
            Entity::Column(col) => match find_in_keyed(&self.columns, col) {
                Some(v) => v,
                None => &self.global,
            },
            Entity::Cell(row, col) => self.lookup(row, col),
        }
    }

    /// Resolves the value that applies at `(row, col)`.
    pub fn lookup(&self, row: usize, col: usize) -> (r: &T)
        ensures
            *r == self.lookup_spec(row as int, col as int),
    {
        let mut i: usize = self.cells.len();
        proof {
            assert(self.cells@.take(i as int) =~= self.cells@);
        }
        while i > 0
            invariant
                i <= self.cells@.len(),
                find_cell_keyed(self.cells@, row as int, col as int) == find_cell_keyed(
                    self.cells@.take(i as int),
                    row as int,
                    col as int,
                ),
            decreases i,
        {
            i = i - 1;
            let entry = &self.cells[i];
            proof {
                assert(self.cells@.take(i + 1).last() == self.cells@[i as int]);
                assert(self.cells@.take(i + 1).drop_last() =~= self.cells@.take(i as int));
            }
            if entry.0 == row && entry.1 == col {
                return &self.cells[i].2;
            }
        }
        proof {
            assert(self.cells@.take(0) =~= Seq::<(usize, usize, T)>::empty());
        }
        let mut i: usize = self.rows.len();
        proof {
            assert(self.rows@.take(i as int) =~= self.rows@);
        }
        while i > 0
            invariant
                i <= self.rows@.len(),
                find_cell_keyed(self.cells@, row as int, col as int) is None,
                find_keyed(self.rows@, row as int) == find_keyed(
                    self.rows@.take(i as int),
                    row as int,
                ),
            decreases i,
        {
            i = i - 1;
            let entry = &self.rows[i];
            proof {
                assert(self.rows@.take(i + 1).last() == self.rows@[i as int]);
                assert(self.rows@.take(i + 1).drop_last() =~= self.rows@.take(i as int));
            }
            if entry.0 == row {
                return &self.rows[i].1;
            }
        }
        proof {
            assert(self.rows@.take(0) =~= Seq::<(usize, T)>::empty());
        }
        let mut i: usize = self.columns.len();
        proof {
            assert(self.columns@.take(i as int) =~= self.columns@);
        }
        while i > 0
            invariant
                i <= self.columns@.len(),
                find_cell_keyed(self.cells@, row as int, col as int) is None,
                find_keyed(self.rows@, row as int) is None,
                find_keyed(self.columns@, col as int) == find_keyed(
                    self.columns@.take(i as int),
                    col as int,
                ),
            decreases i,
        {
            i = i - 1;
            let entry = &self.columns[i];
            proof {
                assert(self.columns@.take(i + 1).last() == self.columns@[i as int]);
                assert(self.columns@.take(i + 1).drop_last() =~= self.columns@.take(i as int));
            }
            if entry.0 == col {
                return &self.columns[i].1;
            }
        }
        proof {
            assert(self.columns@.take(0) =~= Seq::<(usize, T)>::empty());
        }
        &self.global
    }
}

} // verus!
