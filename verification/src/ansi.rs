//! The one place the crate leans on an outside library: reading the ANSI
//! style that is open at the end of a piece of text, so a truncation
//! suffix can be rendered in the same style.

use vstd::prelude::*;

verus! {

/// The style open at the end of a text: the escape sequences that start
/// and end it.  The value is a function of the text alone; it has no
/// closed form here, only the facts the wrappers state.
pub uninterp spec fn ansi_style_of(s: Seq<char>) -> Option<(Seq<char>, Seq<char>)>;

/// Relies on `ansi_str::get_blocks`: splits `s` into blocks of uniform
/// style and yields, for the last block, the escape sequences that open
/// and close its style (both empty when the block carries no style), or
/// nothing when `s` has no text blocks at all, as an empty `s` has none.
#[verifier::external_body]
pub fn last_block_style(s: &str) -> (r: Option<(String, String)>)
    ensures
        match r {
            Some(p) => ansi_style_of(s@) == Some((p.0@, p.1@)),
            None => ansi_style_of(s@) is None,
        },
        s@.len() == 0 ==> r is None,
{
    match ansi_str::get_blocks(s).last() {
        Some(block) => {
            let style = block.style();
            Some((style.start().to_string(), style.end().to_string()))
        },
        None => None,
    }
}

} // verus!
