//! Setting a table's widths from an explicit per-column list.

use vstd::prelude::*;

use crate::records::Records;

verus! {

/// A list of column widths imposed on a table.
#[derive(Clone, Debug)]
pub struct WidthList {
    list: Vec<usize>,
}

impl WidthList {
    /// A width list over the given values.
    pub fn new(list: Vec<usize>) -> (r: WidthList)
        ensures
            r.list_spec() == list@,
    {
        WidthList { list }
    }

    /// The widths held.
    pub closed spec fn list_spec(self) -> Seq<usize> {
        self.list@
    }

    /// The list as one value, for the conversion below.
    pub closed spec fn from_list_spec(list: Vec<usize>) -> WidthList {
        WidthList { list }
    }

    /// The widths to render with: the list when it covers every column of
    /// the grid, else nothing (a short list is ignored).
    pub fn change(&self, records: &Records) -> (r: Option<Vec<usize>>)
        ensures
            match r {
                Some(ws) => ws@ == self.list_spec() && self.list_spec().len()
                    >= records.col_count_spec(),
                None => self.list_spec().len() < records.col_count_spec(),
            },
    {
        if self.list.len() < records.count_columns() {
            return None;
        }
        let copy = self.list.clone();
        proof {
            assert forall|i: int| 0 <= i < copy@.len() implies copy@[i] == self.list@[i] by {
                assert(vstd::pervasive::cloned::<usize>(self.list@[i], copy@[i]));
            }
            assert(copy@ =~= self.list@);
        }
        Some(copy)
    }
}

impl From<Vec<usize>> for WidthList {
    /// A width list over the given values.
    fn from(list: Vec<usize>) -> (r: WidthList)
        ensures
            r.list_spec() == list@,
    {
        WidthList { list }
    }
}

impl vstd::std_specs::convert::FromSpecImpl<Vec<usize>> for WidthList {
    open spec fn obeys_from_spec() -> bool {
        true
    }

    open spec fn from_spec(list: Vec<usize>) -> WidthList {
        WidthList::from_list_spec(list)
    }
}

} // verus!
