//! Rewriting cell content through a caller-supplied function.

use vstd::prelude::*;

use crate::config::GridConfig;
use crate::entity::Entity;
use crate::records::Records;

verus! {

/// Builders for the content-rewriting settings.
#[derive(Clone, Copy, Debug)]
pub struct Format;

impl Format {
    /// A setting that maps every covered cell's text through `f`.
    pub fn content<F: Fn(&str) -> String>(f: F) -> (r: FormatContent<F>)
        ensures
            r.0 == f,
    {
        FormatContent(f)
    }

    /// Like [`Format::content`], but `f` also receives the position.
    pub fn positioned<F: Fn(&str, (usize, usize)) -> String>(f: F) -> (r: FormatContentPositioned<
        F,
    >)
        ensures
            r.0 == f,
    {
        FormatContentPositioned(f)
    }

    /// A setting that maps the whole configuration through `f`.
    pub fn config<F: Fn(GridConfig) -> GridConfig>(f: F) -> (r: FormatConfig<F>)
        ensures
            r.0 == f,
    {
        FormatConfig(f)
    }
}

/// A function applied to the text of every covered cell.
pub struct FormatContent<F>(pub F);

impl<F: Fn(&str) -> String> FormatContent<F> {
    /// Rewrites every covered cell's text through the function.
    pub fn change(&self, records: &mut Records, entity: Entity)
        requires
            old(records).wf(),
            forall|s: &str| (#[trigger] self.0.requires((s,))),
        ensures
            final(records).wf(),
            final(records).row_count_spec() == old(records).row_count_spec(),
            final(records).col_count_spec() == old(records).col_count_spec(),
            forall|r: int, c: int|
                0 <= r < old(records).row_count_spec() && 0 <= c < old(records).col_count_spec()
                    && !entity.contains_spec(r, c) ==> #[trigger] final(records).grid()[r][c]
                    == old(records).grid()[r][c],
            forall|r: int, c: int|
                0 <= r < old(records).row_count_spec() && 0 <= c < old(records).col_count_spec()
                    && entity.contains_spec(r, c) ==> (exists|s: &str, out: String|
                    #![trigger self.0.ensures((s,), out)]
                    s@ == old(records).grid()[r][c] && out@ == final(records).grid()[r][c]
                        && self.0.ensures((s,), out)),
    {
        let nrows = records.count_rows();
        let ncols = records.count_columns();
        let mut r: usize = 0;
        while r < nrows
            invariant
                r <= nrows,
                records.wf(),
                nrows == records.row_count_spec(),
                ncols == records.col_count_spec(),
                nrows == old(records).row_count_spec(),
                ncols == old(records).col_count_spec(),
                forall|s: &str| (#[trigger] self.0.requires((s,))),
                forall|rr: int, cc: int|
                    0 <= rr < nrows && 0 <= cc < ncols && !(rr < r && entity.contains_spec(rr, cc))
                        ==> #[trigger] records.grid()[rr][cc] == old(records).grid()[rr][cc],
                forall|rr: int, cc: int|
                    0 <= rr < nrows && 0 <= cc < ncols && rr < r && entity.contains_spec(rr, cc)
                        ==> (exists|s: &str, out: String|
                    #![trigger self.0.ensures((s,), out)]
                    s@ == old(records).grid()[rr][cc] && out@ == records.grid()[rr][cc]
                        && self.0.ensures((s,), out)),
            decreases nrows - r,
        {
            let mut c: usize = 0;
            while c < ncols
                invariant
                    c <= ncols,
                    r < nrows,
                    records.wf(),
                    nrows == records.row_count_spec(),
                    ncols == records.col_count_spec(),
                    nrows == old(records).row_count_spec(),
                    ncols == old(records).col_count_spec(),
                    forall|s: &str| (#[trigger] self.0.requires((s,))),
                    forall|rr: int, cc: int|
                        0 <= rr < nrows && 0 <= cc < ncols && !((rr < r || (rr == r && cc < c))
                            && entity.contains_spec(rr, cc)) ==> #[trigger] records.grid()[rr][cc]
                            == old(records).grid()[rr][cc],
                    forall|rr: int, cc: int|
                        0 <= rr < nrows && 0 <= cc < ncols && (rr < r || (rr == r && cc < c))
                            && entity.contains_spec(rr, cc) ==> (exists|s: &str, out: String|
                        #![trigger self.0.ensures((s,), out)]
                        s@ == old(records).grid()[rr][cc] && out@ == records.grid()[rr][cc]
                            && self.0.ensures((s,), out)),
                decreases ncols - c,
            {
                if entity.contains(r, c) {
                    proof {
                        records.lemma_grid_shape();
                    }
                    let ghost g0 = records.grid();
                    let arg = records.get(r, c).as_str();
                    let ghost argg = arg;
                    let new_text = (self.0)(arg);
                    let ghost outg = new_text;
                    records.set_text(r, c, new_text);
                    proof {
                        records.lemma_grid_shape();
                        assert forall|rr: int, cc: int|
                            0 <= rr < nrows && 0 <= cc < ncols && !(rr == r && cc == c) implies
                        #[trigger] records.grid()[rr][cc] == g0[rr][cc] by {
                        }
                        assert forall|rr: int, cc: int|
                            0 <= rr < nrows && 0 <= cc < ncols && (rr < r || (rr == r && cc < c
                                + 1)) && entity.contains_spec(rr, cc) implies (exists|s: &str, out: String|
                            #![trigger self.0.ensures((s,), out)]
                            s@ == old(records).grid()[rr][cc] && out@ == records.grid()[rr][cc]
                                && self.0.ensures((s,), out)) by {
                            if rr == r && cc == c {
                                assert(argg@ == old(records).grid()[rr][cc]);
                                assert(outg@ == records.grid()[rr][cc]);
                                assert(self.0.ensures((argg,), outg));
                            } else {
                                let (s0, out0) = choose|s: &str, out: String|
                                    s@ == old(records).grid()[rr][cc] && out@ == g0[rr][cc]
                                        && self.0.ensures((s,), out);
                                assert(out0@ == records.grid()[rr][cc]);
                                assert(self.0.ensures((s0,), out0));
                            }
                        }
                    }
                }
                c = c + 1;
            }
            r = r + 1;
        }
    }
}

/// A function applied to the text and position of every covered cell.
pub struct FormatContentPositioned<F>(pub F);

impl<F: Fn(&str, (usize, usize)) -> String> FormatContentPositioned<F> {
    /// Rewrites every covered cell's text through the function, handing
    /// it the cell's position.
    pub fn change(&self, records: &mut Records, entity: Entity)
        requires
            old(records).wf(),
            forall|s: &str, pos: (usize, usize)| (#[trigger] self.0.requires((s, pos))),
        ensures
            final(records).wf(),
            final(records).row_count_spec() == old(records).row_count_spec(),
            final(records).col_count_spec() == old(records).col_count_spec(),
            forall|r: int, c: int|
                0 <= r < old(records).row_count_spec() && 0 <= c < old(records).col_count_spec()
                    && !entity.contains_spec(r, c) ==> #[trigger] final(records).grid()[r][c]
                    == old(records).grid()[r][c],
            forall|r: int, c: int|
                0 <= r < old(records).row_count_spec() && 0 <= c < old(records).col_count_spec()
                    && entity.contains_spec(r, c) ==> (exists|s: &str, out: String|
                    #![trigger self.0.ensures((s, (r as usize, c as usize)), out)]
                    s@ == old(records).grid()[r][c] && out@ == final(records).grid()[r][c]
                        && self.0.ensures((s, (r as usize, c as usize)), out)),
    {
        let nrows = records.count_rows();
        let ncols = records.count_columns();
        let mut r: usize = 0;
        while r < nrows
            invariant
                r <= nrows,
                records.wf(),
                nrows == records.row_count_spec(),
                ncols == records.col_count_spec(),
                nrows == old(records).row_count_spec(),
                ncols == old(records).col_count_spec(),
                forall|s: &str, pos: (usize, usize)| (#[trigger] self.0.requires((s, pos))),
                forall|rr: int, cc: int|
                    0 <= rr < nrows && 0 <= cc < ncols && !(rr < r && entity.contains_spec(rr, cc))
                        ==> #[trigger] records.grid()[rr][cc] == old(records).grid()[rr][cc],
                forall|rr: int, cc: int|
                    0 <= rr < nrows && 0 <= cc < ncols && rr < r && entity.contains_spec(rr, cc)
                        ==> (exists|s: &str, out: String|
                    #![trigger self.0.ensures((s, (rr as usize, cc as usize)), out)]
                    s@ == old(records).grid()[rr][cc] && out@ == records.grid()[rr][cc]
                        && self.0.ensures((s, (rr as usize, cc as usize)), out)),
            decreases nrows - r,
        {
            let mut c: usize = 0;
            while c < ncols
                invariant
                    c <= ncols,
                    r < nrows,
                    records.wf(),
                    nrows == records.row_count_spec(),
                    ncols == records.col_count_spec(),
                    nrows == old(records).row_count_spec(),
                    ncols == old(records).col_count_spec(),
                    forall|s: &str, pos: (usize, usize)| (#[trigger] self.0.requires((s, pos))),
                    forall|rr: int, cc: int|
                        0 <= rr < nrows && 0 <= cc < ncols && !((rr < r || (rr == r && cc < c))
                            && entity.contains_spec(rr, cc)) ==> #[trigger] records.grid()[rr][cc]
                            == old(records).grid()[rr][cc],
                    forall|rr: int, cc: int|
                        0 <= rr < nrows && 0 <= cc < ncols && (rr < r || (rr == r && cc < c))
                            && entity.contains_spec(rr, cc) ==> (exists|s: &str, out: String|
                        #![trigger self.0.ensures((s, (rr as usize, cc as usize)), out)]
                        s@ == old(records).grid()[rr][cc] && out@ == records.grid()[rr][cc]
                            && self.0.ensures((s, (rr as usize, cc as usize)), out)),
                decreases ncols - c,
            {
                if entity.contains(r, c) {
                    proof {
                        records.lemma_grid_shape();
                    }
                    let ghost g0 = records.grid();
                    let arg = records.get(r, c).as_str();
                    let ghost argg = arg;
                    let new_text = (self.0)(arg, (r, c));
                    let ghost outg = new_text;
                    records.set_text(r, c, new_text);
                    proof {
                        records.lemma_grid_shape();
                        assert forall|rr: int, cc: int|
                            0 <= rr < nrows && 0 <= cc < ncols && !(rr == r && cc == c) implies
                        #[trigger] records.grid()[rr][cc] == g0[rr][cc] by {
                        }
                        assert forall|rr: int, cc: int|
                            0 <= rr < nrows && 0 <= cc < ncols && (rr < r || (rr == r && cc < c
                                + 1)) && entity.contains_spec(rr, cc) implies (exists|s: &str, out: String|
                            #![trigger self.0.ensures((s, (rr as usize, cc as usize)), out)]
                            s@ == old(records).grid()[rr][cc] && out@ == records.grid()[rr][cc]
                                && self.0.ensures((s, (rr as usize, cc as usize)), out)) by {
                            if rr == r && cc == c {
                                assert(argg@ == old(records).grid()[rr][cc]);
                                assert(outg@ == records.grid()[rr][cc]);
                                assert((rr as usize, cc as usize) == (r, c));
                                assert(self.0.ensures((argg, (rr as usize, cc as usize)), outg));
                            } else {
                                let (s0, out0) = choose|s: &str, out: String|
                                    s@ == old(records).grid()[rr][cc] && out@ == g0[rr][cc]
                                        && self.0.ensures((s, (rr as usize, cc as usize)), out);
                                assert(out0@ == records.grid()[rr][cc]);
                                assert(self.0.ensures((s0, (rr as usize, cc as usize)), out0));
                            }
                        }
                    }
                }
                c = c + 1;
            }
            r = r + 1;
        }
    }
}

/// A function applied to the whole configuration.
pub struct FormatConfig<F>(pub F);

impl<F: Fn(GridConfig) -> GridConfig> FormatConfig<F> {
    /// Maps the configuration through the function.
    pub fn change(&self, cfg: GridConfig) -> (r: GridConfig)
        requires
            forall|c: GridConfig| (#[trigger] self.0.requires((c,))),
        ensures
            self.0.ensures((cfg,), r),
    {
        (self.0)(cfg)
    }
}

} // verus!
