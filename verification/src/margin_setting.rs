//! The margin setting: an outer indent around the whole table.

use vstd::prelude::*;

use crate::config::GridConfig;
use crate::config::Indent;
use crate::config::Sides;

verus! {

/// An outer indent on each side of the rendered table.
#[derive(Clone, Copy, Debug)]
pub struct Margin(pub Sides<Indent>);

impl Margin {
    /// A margin of the given sizes, filled with spaces.
    pub fn new(left: usize, right: usize, top: usize, bottom: usize) -> (r: Margin)
        ensures
            r.0.left == (Indent { size: left, fill: ' ' }),
            r.0.right == (Indent { size: right, fill: ' ' }),
            r.0.top == (Indent { size: top, fill: ' ' }),
            r.0.bottom == (Indent { size: bottom, fill: ' ' }),
    {
        Margin(
            Sides {
                top: Indent::spaced(top),
                bottom: Indent::spaced(bottom),
                left: Indent::spaced(left),
                right: Indent::spaced(right),
            },
        )
    }

    /// The same margin with one fill character per side.
    pub fn fill(self, left: char, right: char, top: char, bottom: char) -> (r: Margin)
        ensures
            r.0.left == (Indent { size: self.0.left.size, fill: left }),
            r.0.right == (Indent { size: self.0.right.size, fill: right }),
            r.0.top == (Indent { size: self.0.top.size, fill: top }),
            r.0.bottom == (Indent { size: self.0.bottom.size, fill: bottom }),
    {
        let mut m = self;
        m.0.left.fill = left;
        m.0.right.fill = right;
        m.0.top.fill = top;
        m.0.bottom.fill = bottom;
        m
    }

    /// Sets the grid's margin.
    pub fn change(&self, cfg: &mut GridConfig)
        ensures
            *final(cfg) == (GridConfig { margin: self.0, ..*old(cfg) }),
    {
        cfg.set_margin(self.0);
    }
}

} // verus!
