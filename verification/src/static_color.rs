//! A color given by fixed escape sequences.

use vstd::prelude::*;

verus! {

/// An ANSI color as a fixed prefix and suffix.  The sequences are not
/// checked: the caller supplies correct escapes.
#[derive(Clone, Copy, Debug)]
pub struct StaticColor {
    prefix: &'static str,
    suffix: &'static str,
}

impl StaticColor {
    /// A color with the given prefix and suffix.
    pub fn new(prefix: &'static str, suffix: &'static str) -> (r: StaticColor)
        ensures
            r.prefix_spec() == prefix@,
            r.suffix_spec() == suffix@,
    {
        StaticColor { prefix, suffix }
    }

    /// The prefix written before colored text.
    pub closed spec fn prefix_spec(self) -> Seq<char> {
        self.prefix@
    }

    /// The suffix written after colored text.
    pub closed spec fn suffix_spec(self) -> Seq<char> {
        self.suffix@
    }

    /// The prefix written before colored text.
    pub fn get_prefix(&self) -> (r: &str)
        ensures
            r@ == self.prefix_spec(),
    {
        self.prefix
    }

    /// The suffix written after colored text.
    pub fn get_suffix(&self) -> (r: &str)
        ensures
            r@ == self.suffix_spec(),
    {
        self.suffix
    }
}

} // verus!
