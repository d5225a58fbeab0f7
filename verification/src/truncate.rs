//! Width truncation: shrinking columns to meet a total-width budget and
//! cutting cell text to fit the shrunken columns.
//!
//! The adjuster repeatedly takes one character from one column, chosen by
//! a priority policy, never below the column's padding floor, until the
//! budget is met or every column is at its floor.  Afterwards every
//! affected cell's text is cut to its column's final content width,
//! optionally with a suffix.

use vstd::prelude::*;

use crate::ansi::ansi_style_of;
use crate::ansi::last_block_style;
use crate::config::GridConfig;
use crate::entity::Entity;
use crate::estimate::col_span_end;
use crate::estimate::col_span_end_at;
use crate::estimate::is_covered_spec;
use crate::estimate::max_line_width;
use crate::estimate::owner_of;
use crate::records::Records;
use crate::text::chars_vec;
use crate::text::cut_chars;
use crate::text::cut_spec;
use crate::text::expand_tabs;
use crate::text::expand_tabs_spec;
use crate::text::fill_chars;
use crate::text::char_fill;
use crate::text::sadd;
use crate::text::split_lines;
use crate::text::split_lines_spec;
use crate::text::ssub;
use crate::text::string_from_chars;
use crate::text::usat_add;
use crate::text::usat_sub;
use crate::text::width_cap;

verus! {

/// The policy that picks which column loses the next character.
#[derive(Clone, Copy, Debug, PartialEq, Eq, Structural)]
pub enum Priority {
    /// Walk the columns round robin.
    PriorityNone,
    /// Take from the widest column still above its floor.
    PriorityMax,
    /// Take from the narrowest column still above its floor.
    PriorityMin,
}

/// Whether column `i` can still lose a character: it is above its floor.
pub open spec fn shrinkable(widths: Seq<usize>, mins: Seq<usize>, i: int) -> bool {
    widths[i] > mins[i]
}

/// The first shrinkable column in `from .. to`.
pub open spec fn first_shrinkable(widths: Seq<usize>, mins: Seq<usize>, from: int, to: int) -> Option<int>
    decreases to - from,
{
    if from >= to {
        None
    } else if shrinkable(widths, mins, from) {
        Some(from)
    } else {
        first_shrinkable(widths, mins, from + 1, to)
    }
}

/// The shrinkable column with the largest width among `0 .. upto`, the
/// first of equals.
pub open spec fn widest_shrinkable(widths: Seq<usize>, mins: Seq<usize>, upto: int) -> Option<int>
    decreases upto,
{
    if upto <= 0 {
        None
    } else {
        let prev = widest_shrinkable(widths, mins, upto - 1);
        if !shrinkable(widths, mins, upto - 1) {
            prev
        } else {
            match prev {
                Some(b) => if widths[upto - 1] > widths[b] {
                    Some(upto - 1)
                } else {
                    prev
                },
                None => Some(upto - 1),
            }
        }
    }
}

/// The shrinkable column with the smallest width among `0 .. upto`, the
/// first of equals.
pub open spec fn narrowest_shrinkable(widths: Seq<usize>, mins: Seq<usize>, upto: int) -> Option<
    int,
>
    decreases upto,
{
    if upto <= 0 {
        None
    } else {
        let prev = narrowest_shrinkable(widths, mins, upto - 1);
        if !shrinkable(widths, mins, upto - 1) {
            prev
        } else {
            match prev {
                Some(b) => if widths[upto - 1] < widths[b] {
                    Some(upto - 1)
                } else {
                    prev
                },
                None => Some(upto - 1),
            }
        }
    }
}

/// The column the policy picks, scanning round robin from `state` for the
/// round-robin policy.
pub open spec fn peak_spec(p: Priority, widths: Seq<usize>, mins: Seq<usize>, state: int) -> Option<
    int,
> {
    match p {
        Priority::PriorityNone => match first_shrinkable(widths, mins, state, widths.len() as int) {
            Some(i) => Some(i),
            None => first_shrinkable(widths, mins, 0, state),
        },
        Priority::PriorityMax => widest_shrinkable(widths, mins, widths.len() as int),
        Priority::PriorityMin => narrowest_shrinkable(widths, mins, widths.len() as int),
    }
}

/// The widths after `n` single-character decrements under policy `p`,
/// stopping early when no column can shrink.
pub open spec fn decrease_spec(
    widths: Seq<usize>,
    mins: Seq<usize>,
    p: Priority,
    state: int,
    n: nat,
) -> Seq<usize>
    decreases n,
{
    if n == 0 {
        widths
    } else {
        match peak_spec(p, widths, mins, state) {
            None => widths,
            Some(i) => decrease_spec(
                widths.update(i, (widths[i] - 1) as usize),
                mins,
                p,
                i + 1,
                (n - 1) as nat,
            ),
        }
    }
}

/// Computes the column the policy picks.
fn peak(p: Priority, widths: &Vec<usize>, mins: &Vec<usize>, state: usize) -> (r: Option<usize>)
    requires
        widths@.len() == mins@.len(),
        state <= widths@.len(),
    ensures
        match r {
            Some(i) => peak_spec(p, widths@, mins@, state as int) == Some(i as int) && i
                < widths@.len() && shrinkable(widths@, mins@, i as int),
            None => peak_spec(p, widths@, mins@, state as int) is None,
        },
{
    match p {
        Priority::PriorityNone => {
            let n = widths.len();
            let mut i: usize = state;
            while i < n
                invariant
                    p is PriorityNone,
                    state <= i <= n,
                    n == widths@.len(),
                    widths@.len() == mins@.len(),
                    first_shrinkable(widths@, mins@, state as int, n as int) == first_shrinkable(
                        widths@,
                        mins@,
                        i as int,
                        n as int,
                    ),
                decreases n - i,
            {
                if widths[i] > mins[i] {
                    return Some(i);
                }
                i = i + 1;
            }
            let mut i: usize = 0;
            while i < state
                invariant
                    p is PriorityNone,
                    i <= state,
                    state <= widths@.len(),
                    widths@.len() == mins@.len(),
                    first_shrinkable(widths@, mins@, state as int, widths@.len() as int) is None,
                    first_shrinkable(widths@, mins@, 0, state as int) == first_shrinkable(
                        widths@,
                        mins@,
                        i as int,
                        state as int,
                    ),
                decreases state - i,
            {
                if widths[i] > mins[i] {
                    return Some(i);
                }
                i = i + 1;
            }
            None
        },
        Priority::PriorityMax => {
            let n = widths.len();
            let mut best: Option<usize> = None;
            let mut i: usize = 0;
            while i < n
                invariant
                    p is PriorityMax,
                    i <= n,
                    n == widths@.len(),
                    widths@.len() == mins@.len(),
                    match best {
                        Some(b) => widest_shrinkable(widths@, mins@, i as int) == Some(b as int)
                            && b < n && shrinkable(widths@, mins@, b as int),
                        None => widest_shrinkable(widths@, mins@, i as int) is None,
                    },
                decreases n - i,
            {
                if widths[i] > mins[i] {
                    best = match best {
                        Some(b) => if widths[i] > widths[b] {
                            Some(i)
                        } else {
                            Some(b)
                        },
                        None => Some(i),
                    };
                }
                i = i + 1;
            }
            best
        },
        Priority::PriorityMin => {
            let n = widths.len();
            let mut best: Option<usize> = None;
            let mut i: usize = 0;
            while i < n
                invariant
                    p is PriorityMin,
                    i <= n,
                    n == widths@.len(),
                    widths@.len() == mins@.len(),
                    match best {
                        Some(b) => narrowest_shrinkable(widths@, mins@, i as int) == Some(b as int)
                            && b < n && shrinkable(widths@, mins@, b as int),
                        None => narrowest_shrinkable(widths@, mins@, i as int) is None,
                    },
                decreases n - i,
            {
                if widths[i] > mins[i] {
                    best = match best {
                        Some(b) => if widths[i] < widths[b] {
                            Some(i)
                        } else {
                            Some(b)
                        },
                        None => Some(i),
                    };
                }
                i = i + 1;
            }
            best
        },
    }
}

/// Takes characters from the columns, one at a time under the policy,
/// until `count` characters are gone or every column is at its floor.
pub fn decrease_widths(widths: &mut Vec<usize>, min_widths: &Vec<usize>, count: usize, priority: Priority)
    requires
        old(widths)@.len() == min_widths@.len(),
    ensures
        final(widths)@ == decrease_spec(old(widths)@, min_widths@, priority, 0, count as nat),
        final(widths)@.len() == old(widths)@.len(),
{
    let mut state: usize = 0;
    let mut done: usize = 0;
    proof {
        lemma_decrease_len(widths@, min_widths@, priority, 0, count as nat);
    }
    while done < count
        invariant
            done <= count,
            widths@.len() == min_widths@.len(),
            old(widths)@.len() == min_widths@.len(),
            state <= widths@.len(),
            decrease_spec(old(widths)@, min_widths@, priority, 0, count as nat) == decrease_spec(
                widths@,
                min_widths@,
                priority,
                state as int,
                (count - done) as nat,
            ),
            decrease_spec(widths@, min_widths@, priority, state as int, (count - done) as nat).len()
                == widths@.len(),
        decreases count - done,
    {
        let ghost w0 = widths@;
        match peak(priority, widths, min_widths, state) {
            Some(i) => {
                let n = widths.len();
                let v = widths[i];
                proof {
                    assert(widths@[i as int] > min_widths@[i as int]);
                    assert(i < n);
                }
                widths[i] = v - 1;
                state = i + 1;
                proof {
                    assert(widths@ =~= w0.update(i as int, (w0[i as int] - 1) as usize));
                }
            },
            None => {
                proof {
                    lemma_decrease_len(old(widths)@, min_widths@, priority, 0, count as nat);
                }
                return ;
            },
        }
        done = done + 1;
    }
}

pub proof fn lemma_decrease_len(
    widths: Seq<usize>,
    mins: Seq<usize>,
    p: Priority,
    state: int,
    n: nat,
)
    requires
        widths.len() == mins.len(),
        0 <= state <= widths.len(),
    ensures
        decrease_spec(widths, mins, p, state, n).len() == widths.len(),
    decreases n,
{
    if n > 0 {
        match peak_spec(p, widths, mins, state) {
            None => {
            },
            Some(i) => {
                lemma_peak_in_range(p, widths, mins, state);
                lemma_decrease_len(
                    widths.update(i, (widths[i] - 1) as usize),
                    mins,
                    p,
                    i + 1,
                    (n - 1) as nat,
                );
            },
        }
    }
}

/// How much the columns `0 .. i` can lose in all before hitting their
/// floors.
pub open spec fn slack_sum(widths: Seq<usize>, mins: Seq<usize>, i: int) -> int
    decreases i,
{
    if i <= 0 {
        0
    } else {
        slack_sum(widths, mins, i - 1) + (if widths[i - 1] > mins[i - 1] {
            widths[i - 1] - mins[i - 1]
        } else {
            0
        })
    }
}

/// The plain (unsaturated) sum of the widths `0 .. i`.
pub open spec fn plain_sum(widths: Seq<usize>, i: int) -> int
    decreases i,
{
    if i <= 0 {
        0
    } else {
        plain_sum(widths, i - 1) + widths[i - 1]
    }
}

pub proof fn lemma_first_shrinkable_some(widths: Seq<usize>, mins: Seq<usize>, from: int, to: int)
    requires
        first_shrinkable(widths, mins, from, to) is None,
    ensures
        forall|i: int| from <= i < to ==> !shrinkable(widths, mins, i),
    decreases to - from,
{
    if from < to {
        lemma_first_shrinkable_some(widths, mins, from + 1, to);
    }
}

pub proof fn lemma_widest_none(widths: Seq<usize>, mins: Seq<usize>, upto: int)
    requires
        widest_shrinkable(widths, mins, upto) is None,
    ensures
        forall|i: int| 0 <= i < upto ==> !shrinkable(widths, mins, i),
    decreases upto,
{
    if upto > 0 {
        lemma_widest_none(widths, mins, upto - 1);
    }
}

pub proof fn lemma_narrowest_none(widths: Seq<usize>, mins: Seq<usize>, upto: int)
    requires
        narrowest_shrinkable(widths, mins, upto) is None,
    ensures
        forall|i: int| 0 <= i < upto ==> !shrinkable(widths, mins, i),
    decreases upto,
{
    if upto > 0 {
        lemma_narrowest_none(widths, mins, upto - 1);
    }
}

/// When no column is shrinkable the slack is zero, and the other way
/// round.
pub proof fn lemma_slack_zero(widths: Seq<usize>, mins: Seq<usize>, i: int)
    requires
        forall|k: int| 0 <= k < i ==> !shrinkable(widths, mins, k),
    ensures
        slack_sum(widths, mins, i) == 0,
    decreases i,
{
    if i > 0 {
        assert(!shrinkable(widths, mins, i - 1));
        lemma_slack_zero(widths, mins, i - 1);
    }
}

pub proof fn lemma_slack_nonneg(widths: Seq<usize>, mins: Seq<usize>, i: int)
    ensures
        slack_sum(widths, mins, i) >= 0,
    decreases i,
{
    if i > 0 {
        lemma_slack_nonneg(widths, mins, i - 1);
    }
}

pub proof fn lemma_sum_update(widths: Seq<usize>, i: int, v: usize, k: int)
    requires
        0 <= i < widths.len(),
        k <= widths.len(),
    ensures
        plain_sum(widths.update(i, v), k) == if i < k {
            plain_sum(widths, k) - widths[i] + v
        } else {
            plain_sum(widths, k)
        },
    decreases k,
{
    if k > 0 {
        lemma_sum_update(widths, i, v, k - 1);
    }
}

pub proof fn lemma_slack_update_dec(widths: Seq<usize>, mins: Seq<usize>, i: int, k: int)
    requires
        0 <= i < widths.len(),
        widths.len() == mins.len(),
        k <= widths.len(),
        shrinkable(widths, mins, i),
    ensures
        slack_sum(widths.update(i, (widths[i] - 1) as usize), mins, k) == if i < k {
            slack_sum(widths, mins, k) - 1
        } else {
            slack_sum(widths, mins, k)
        },
    decreases k,
{
    if k > 0 {
        lemma_slack_update_dec(widths, mins, i, k - 1);
    }
}

/// What the adjuster achieves: it removes exactly `n` characters when the
/// columns' slack allows it, else exactly the slack, and no column ends
/// below its floor (nor below its own old width, whichever is smaller).
pub proof fn lemma_decrease_sum(
    widths: Seq<usize>,
    mins: Seq<usize>,
    p: Priority,
    state: int,
    n: nat,
)
    requires
        widths.len() == mins.len(),
        0 <= state <= widths.len(),
    ensures
        plain_sum(decrease_spec(widths, mins, p, state, n), widths.len() as int) == plain_sum(
            widths,
            widths.len() as int,
        ) - (if n <= slack_sum(widths, mins, widths.len() as int) {
            n as int
        } else {
            slack_sum(widths, mins, widths.len() as int)
        }),
        forall|i: int|
            0 <= i < widths.len() ==> #[trigger] decrease_spec(widths, mins, p, state, n)[i]
                <= widths[i],
        forall|i: int|
            0 <= i < widths.len() ==> #[trigger] decrease_spec(widths, mins, p, state, n)[i]
                >= (if widths[i] <= mins[i] {
                widths[i]
            } else {
                mins[i]
            }),
    decreases n,
{
    lemma_slack_nonneg(widths, mins, widths.len() as int);
    if n == 0 {
    } else {
        match peak_spec(p, widths, mins, state) {
            None => {
                match p {
                    Priority::PriorityNone => {
                        lemma_first_shrinkable_some(widths, mins, state, widths.len() as int);
                        lemma_first_shrinkable_some(widths, mins, 0, state);
                        assert forall|k: int| 0 <= k < widths.len() implies !shrinkable(
                            widths,
                            mins,
                            k,
                        ) by {
                            if k >= state {
                            }
                        }
                    },
                    Priority::PriorityMax => {
                        lemma_widest_none(widths, mins, widths.len() as int);
                    },
                    Priority::PriorityMin => {
                        lemma_narrowest_none(widths, mins, widths.len() as int);
                    },
                }
                lemma_slack_zero(widths, mins, widths.len() as int);
            },
            Some(i) => {
                let w2 = widths.update(i, (widths[i] - 1) as usize);
                lemma_peak_in_range(p, widths, mins, state);
                lemma_decrease_sum(w2, mins, p, i + 1, (n - 1) as nat);
                lemma_sum_update(widths, i, (widths[i] - 1) as usize, widths.len() as int);
                lemma_slack_update_dec(widths, mins, i, widths.len() as int);
            },
        }
    }
}

/// A picked column is in range and shrinkable.
pub proof fn lemma_peak_in_range(p: Priority, widths: Seq<usize>, mins: Seq<usize>, state: int)
    requires
        peak_spec(p, widths, mins, state) is Some,
        widths.len() == mins.len(),
        0 <= state <= widths.len(),
    ensures
        0 <= peak_spec(p, widths, mins, state).unwrap() < widths.len(),
        shrinkable(widths, mins, peak_spec(p, widths, mins, state).unwrap()),
{
    match p {
        Priority::PriorityNone => {
            match first_shrinkable(widths, mins, state, widths.len() as int) {
                Some(_) => {
                    lemma_first_in_range(widths, mins, state, widths.len() as int);
                },
                None => {
                    lemma_first_in_range(widths, mins, 0, state);
                },
            }
        },
        Priority::PriorityMax => {
            lemma_widest_in_range(widths, mins, widths.len() as int);
        },
        Priority::PriorityMin => {
            lemma_narrowest_in_range(widths, mins, widths.len() as int);
        },
    }
}

pub proof fn lemma_first_in_range(widths: Seq<usize>, mins: Seq<usize>, from: int, to: int)
    requires
        first_shrinkable(widths, mins, from, to) is Some,
    ensures
        from <= first_shrinkable(widths, mins, from, to).unwrap() < to,
        shrinkable(widths, mins, first_shrinkable(widths, mins, from, to).unwrap()),
    decreases to - from,
{
    if from < to && !shrinkable(widths, mins, from) {
        lemma_first_in_range(widths, mins, from + 1, to);
    }
}

pub proof fn lemma_widest_in_range(widths: Seq<usize>, mins: Seq<usize>, upto: int)
    requires
        widest_shrinkable(widths, mins, upto) is Some,
    ensures
        0 <= widest_shrinkable(widths, mins, upto).unwrap() < upto,
        shrinkable(widths, mins, widest_shrinkable(widths, mins, upto).unwrap()),
    decreases upto,
{
    if upto > 0 {
        if widest_shrinkable(widths, mins, upto) == widest_shrinkable(widths, mins, upto - 1) {
            lemma_widest_in_range(widths, mins, upto - 1);
        }
    }
}

/// A suffix appended to truncated text.
pub struct TruncateSuffix {
    /// The suffix text.
    pub text: String,
    /// What to do when the suffix itself does not fit.
    pub limit: SuffixLimit,
    /// Whether to repeat the style open at the cut point around the
    /// suffix.
    pub try_color: bool,
}

impl Default for TruncateSuffix {
    /// An empty suffix that is cut when it does not fit and carries no
    /// color.
    fn default() -> (r: Self)
        ensures
            r.text@ == Seq::<char>::empty(),
            r.limit is Cut,
            !r.try_color,
    {
        TruncateSuffix { text: String::new(), limit: SuffixLimit::Cut, try_color: false }
    }
}

/// What to do when a truncation suffix is wider than the room left.
#[derive(Clone, Copy, Debug, PartialEq, Eq, Structural)]
pub enum SuffixLimit {
    /// Cut the suffix itself.
    Cut,
    /// Drop the suffix.
    Ignore,
    /// Replace it by a repeated character filling the room.
    Replace(char),
}

/// Cuts cell text to a width, per cell or for the whole table under a
/// total-width budget.
pub struct Truncate {
    /// The width budget: the content width per cell, or the total width
    /// of the table.
    pub width: usize,
    /// The suffix appended where text was cut.
    pub suffix: Option<TruncateSuffix>,
    /// The policy picking which column shrinks next.
    pub priority: Priority,
}

impl Truncate {
    /// A truncation to `width` with no suffix under the round-robin
    /// policy.
    pub fn new(width: usize) -> (r: Truncate)
        ensures
            r.width == width,
            r.suffix is None,
            r.priority is PriorityNone,
    {
        Truncate { width, suffix: None, priority: Priority::PriorityNone }
    }

    /// Sets the suffix text, keeping any configured limit and color
    /// choice.
    pub fn suffix(self, text: String) -> (r: Truncate)
        ensures
            r.width == self.width,
            r.priority == self.priority,
            match r.suffix {
                Some(s) => s.text == text && s.limit == (match self.suffix {
                    Some(o) => o.limit,
                    None => SuffixLimit::Cut,
                }) && s.try_color == (match self.suffix {
                    Some(o) => o.try_color,
                    None => false,
                }),
                None => false,
            },
    {
        let mut s = match self.suffix {
            Some(s) => s,
            None => TruncateSuffix::default(),
        };
        s.text = text;
        Truncate { width: self.width, suffix: Some(s), priority: self.priority }
    }

    /// Sets what happens when the suffix does not fit, keeping any
    /// configured text and color choice.
    pub fn suffix_limit(self, limit: SuffixLimit) -> (r: Truncate)
        ensures
            r.width == self.width,
            r.priority == self.priority,
            match r.suffix {
                Some(s) => s.limit == limit && s.text@ == (match self.suffix {
                    Some(o) => o.text@,
                    None => Seq::<char>::empty(),
                }) && s.try_color == (match self.suffix {
                    Some(o) => o.try_color,
                    None => false,
                }),
                None => false,
            },
    {
        let mut s = match self.suffix {
            Some(s) => s,
            None => TruncateSuffix::default(),
        };
        s.limit = limit;
        Truncate { width: self.width, suffix: Some(s), priority: self.priority }
    }

    /// Sets whether the suffix repeats the style open at the cut point.
    pub fn suffix_try_color(self, color: bool) -> (r: Truncate)
        ensures
            r.width == self.width,
            r.priority == self.priority,
            match r.suffix {
                Some(s) => s.try_color == color && s.limit == (match self.suffix {
                    Some(o) => o.limit,
                    None => SuffixLimit::Cut,
                }) && s.text@ == (match self.suffix {
                    Some(o) => o.text@,
                    None => Seq::<char>::empty(),
                }),
                None => false,
            },
    {
        let mut s = match self.suffix {
            Some(s) => s,
            None => TruncateSuffix::default(),
        };
        s.try_color = color;
        Truncate { width: self.width, suffix: Some(s), priority: self.priority }
    }

    /// Sets the policy picking which column shrinks next.
    pub fn priority(self, priority: Priority) -> (r: Truncate)
        ensures
            r.width == self.width,
            r.suffix == self.suffix,
            r.priority == priority,
    {
        Truncate { width: self.width, suffix: self.suffix, priority }
    }

    /// Cuts `text` to `width` characters after expanding tabs, with no
    /// suffix.
    pub fn truncate_text(text: &str, width: usize, tab_width: usize) -> (r: String)
        ensures
            r@ == cut_spec(expand_tabs_spec(text@, tab_width as nat), width as nat),
    {
        let cv = chars_vec(text);
        let expanded = expand_tabs(&cv, tab_width);
        let cut = cut_chars(&expanded, width);
        string_from_chars(&cut)
    }
}

/// Whether the suffix asks for the open style at the cut point to be
/// repeated around it.
pub open spec fn keep_color_spec(sfx: Option<TruncateSuffix>) -> bool {
    match sfx {
        Some(s) => s.try_color,
        None => false,
    }
}

/// Whether the suffix asks for color preservation.
pub fn need_suffix_color_preservation(suffix: &Option<TruncateSuffix>) -> (r: bool)
    ensures
        r == keep_color_spec(*suffix),
{
    match suffix {
        Some(s) => s.try_color,
        None => false,
    }
}

/// The suffix actually used for a budget of `width` characters, and the
/// room left for content: the full suffix when it fits, else what the
/// limit asks for.
pub open spec fn make_suffix_spec(text: Seq<char>, limit: SuffixLimit, width: usize, tab: nat) -> (
    Seq<char>,
    usize,
) {
    let expanded = expand_tabs_spec(text, tab);
    if width > expanded.len() {
        (text, (width - expanded.len()) as usize)
    } else {
        match limit {
            SuffixLimit::Ignore => (Seq::empty(), width),
            SuffixLimit::Cut => (cut_spec(expanded, width as nat), 0usize),
            SuffixLimit::Replace(c) => (char_fill(width as nat, c), 0usize),
        }
    }
}

/// Computes the suffix used for a budget of `width` and the room left for
/// content.
pub fn make_suffix(suffix: &TruncateSuffix, width: usize, tab_width: usize) -> (r: (String, usize))
    ensures
        r.0@ == make_suffix_spec(suffix.text@, suffix.limit, width, tab_width as nat).0,
        r.1 == make_suffix_spec(suffix.text@, suffix.limit, width, tab_width as nat).1,
{
    let cv = chars_vec(suffix.text.as_str());
    let expanded = expand_tabs(&cv, tab_width);
    if width > expanded.len() {
        return (suffix.text.clone(), width - expanded.len());
    }
    match suffix.limit {
        SuffixLimit::Ignore => (String::new(), width),
        SuffixLimit::Cut => {
            let cut = cut_chars(&expanded, width);
            (string_from_chars(&cut), 0)
        },
        SuffixLimit::Replace(c) => {
            let fill = fill_chars(width, c);
            proof {
                crate::text::lemma_char_fill_len(width as nat, c);
            }
            (string_from_chars(&fill), 0)
        },
    }
}

/// The text after a cut at `width` with the suffix appended; with color
/// preservation the suffix sits inside the style open at the cut point.
pub open spec fn truncate_text_spec(
    content: Seq<char>,
    width: usize,
    suffix: Seq<char>,
    keep_color: bool,
) -> Seq<char> {
    let cut = cut_spec(content, width as nat);
    if suffix.len() == 0 {
        cut
    } else if keep_color {
        match ansi_style_of(cut) {
            Some(p) => cut + p.0 + suffix + p.1,
            None => cut + suffix,
        }
    } else {
        cut + suffix
    }
}

/// Cuts `content` to `width` characters and appends `suffix`; when asked,
/// the style open at the cut point is repeated around the suffix.
pub fn truncate_text(content: &str, width: usize, suffix: &str, keep_color: bool) -> (r: String)
    ensures
        r@ == truncate_text_spec(content@, width, suffix@, keep_color),
{
    let cv = chars_vec(content);
    let cutv = cut_chars(&cv, width);
    let mut out = string_from_chars(&cutv);
    if suffix.unicode_len() == 0 {
        return out;
    }
    if keep_color {
        match last_block_style(out.as_str()) {
            Some(p) => {
                out.append(p.0.as_str());
                out.append(suffix);
                out.append(p.1.as_str());
            },
            None => {
                out.append(suffix);
            },
        }
    } else {
        out.append(suffix);
    }
    out
}

/// A cell text after a per-cell truncation: untouched when it already
/// fits the budget; emptied or reduced to the suffix when no content room
/// is left; else cut to the room with the suffix appended.
pub open spec fn cell_truncated_spec(
    text: Seq<char>,
    tab: nat,
    twidth: usize,
    room: usize,
    suffix: Seq<char>,
    keep_color: bool,
) -> Seq<char> {
    let cellw = width_cap(max_line_width(split_lines_spec(expand_tabs_spec(text, tab))));
    if twidth >= cellw {
        text
    } else if room == 0 {
        if twidth == 0 {
            Seq::empty()
        } else {
            suffix
        }
    } else {
        truncate_text_spec(expand_tabs_spec(text, tab), room, suffix, keep_color)
    }
}

/// The per-cell truncation with the suffix derived from the setting.
pub open spec fn cell_truncated_full_spec(
    text: Seq<char>,
    tab: nat,
    twidth: usize,
    sfx: Option<TruncateSuffix>,
) -> Seq<char> {
    let params = match sfx {
        Some(s) => make_suffix_spec(s.text@, s.limit, twidth, tab),
        None => (Seq::<char>::empty(), twidth),
    };
    cell_truncated_spec(text, tab, twidth, params.1, params.0, keep_color_spec(sfx))
}

/// Rewrites one cell under a truncation budget of `twidth`.
fn truncate_cell(
    records: &mut Records,
    tab_width: usize,
    twidth: usize,
    sfx: &Option<TruncateSuffix>,
    r: usize,
    c: usize,
)
    requires
        old(records).wf(),
        r < old(records).row_count_spec(),
        c < old(records).col_count_spec(),
    ensures
        final(records).wf(),
        final(records).row_count_spec() == old(records).row_count_spec(),
        final(records).col_count_spec() == old(records).col_count_spec(),
        final(records).grid() =~~= old(records).grid().update(
            r as int,
            old(records).grid()[r as int].update(
                c as int,
                cell_truncated_full_spec(
                    old(records).grid()[r as int][c as int],
                    tab_width as nat,
                    twidth,
                    *sfx,
                ),
            ),
        ),
{
    let keep = need_suffix_color_preservation(sfx);
    let (suffix_s, room) = match sfx {
        Some(s) => make_suffix(s, twidth, tab_width),
        None => (String::new(), twidth),
    };
    let text = records.get(r, c);
    let cv = chars_vec(text.as_str());
    let expanded = expand_tabs(&cv, tab_width);
    let ls = split_lines(&expanded);
    let cellw = crate::estimate::content_width(&ls);
    if twidth >= cellw {
        let ghost g = records.grid();
        proof {
            records.lemma_grid_shape();
            assert(records.grid() =~~= g.update(
                r as int,
                g[r as int].update(c as int, g[r as int][c as int]),
            ));
        }
        return ;
    }
    if room == 0 {
        if twidth == 0 {
            records.set_text(r, c, String::new());
        } else {
            records.set_text(r, c, suffix_s);
        }
    } else {
        let expanded_s = string_from_chars(&expanded);
        let cut = truncate_text(expanded_s.as_str(), room, suffix_s.as_str(), keep);
        records.set_text(r, c, cut);
    }
}

impl Truncate {
    /// Cuts every cell the entity covers down to the width budget; a cell
    /// already within the budget is untouched.
    pub fn change(&self, records: &mut Records, cfg: &GridConfig, entity: Entity)
        requires
            old(records).wf(),
        ensures
            final(records).wf(),
            final(records).row_count_spec() == old(records).row_count_spec(),
            final(records).col_count_spec() == old(records).col_count_spec(),
            forall|rr: int, cc: int|
                0 <= rr < old(records).row_count_spec() && 0 <= cc < old(
                    records,
                ).col_count_spec() ==> #[trigger] final(records).grid()[rr][cc]
                    == if entity.contains_spec(rr, cc) {
                    cell_truncated_full_spec(
                        old(records).grid()[rr][cc],
                        cfg.tab_width as nat,
                        self.width,
                        self.suffix,
                    )
                } else {
                    old(records).grid()[rr][cc]
                },
    {
        let nrows = records.count_rows();
        let ncols = records.count_columns();
        let tab = cfg.get_tab_width();
        proof {
            old(records).lemma_grid_shape();
        }
        let mut r: usize = 0;
        while r < nrows
            invariant
                r <= nrows,
                records.wf(),
                nrows == records.row_count_spec(),
                ncols == records.col_count_spec(),
                nrows == old(records).row_count_spec(),
                ncols == old(records).col_count_spec(),
                tab == cfg.tab_width,
                forall|rr: int, cc: int|
                    0 <= rr < nrows && 0 <= cc < ncols ==> #[trigger] records.grid()[rr][cc] == if rr
                        < r && entity.contains_spec(rr, cc) {
                        cell_truncated_full_spec(
                            old(records).grid()[rr][cc],
                            tab as nat,
                            self.width,
                            self.suffix,
                        )
                    } else {
                        old(records).grid()[rr][cc]
                    },
            decreases nrows - r,
        {
            let mut c: usize = 0;
            while c < ncols
                invariant
                    c <= ncols,
                    r < nrows,
                    records.wf(),
                    nrows == records.row_count_spec(),
                    ncols == records.col_count_spec(),
                    nrows == old(records).row_count_spec(),
                    ncols == old(records).col_count_spec(),
                    tab == cfg.tab_width,
                    forall|rr: int, cc: int|
                        0 <= rr < nrows && 0 <= cc < ncols ==> #[trigger] records.grid()[rr][cc]
                            == if (rr < r || (rr == r && cc < c)) && entity.contains_spec(rr, cc) {
                            cell_truncated_full_spec(
                                old(records).grid()[rr][cc],
                                tab as nat,
                                self.width,
                                self.suffix,
                            )
                        } else {
                            old(records).grid()[rr][cc]
                        },
                decreases ncols - c,
            {
                if entity.contains(r, c) {
                    proof {
                        records.lemma_grid_shape();
                    }
                    let ghost g0 = records.grid();
                    truncate_cell(records, tab, self.width, &self.suffix, r, c);
                    proof {
                        records.lemma_grid_shape();
                        assert forall|rr: int, cc: int|
                            0 <= rr < nrows && 0 <= cc < ncols implies #[trigger] records.grid(
                        )[rr][cc] == if (rr < r || (rr == r && cc < c + 1))
                            && entity.contains_spec(rr, cc) {
                            cell_truncated_full_spec(
                                old(records).grid()[rr][cc],
                                tab as nat,
                                self.width,
                                self.suffix,
                            )
                        } else {
                            old(records).grid()[rr][cc]
                        } by {
                            if rr == r && cc == c {
                            } else {
                                assert(records.grid()[rr][cc] == g0[rr][cc]);
                            }
                        }
                    }
                }
                c = c + 1;
            }
            r = r + 1;
        }
    }
}

/// The number of vertical grid lines strictly between the boundaries
/// `start` and `end`.
pub open spec fn borders_between(cfg: GridConfig, start: int, end: int, nrows: int, ncols: int) -> usize
    decreases end - start,
{
    if end <= start + 1 {
        0
    } else {
        sadd(
            borders_between(cfg, start, end - 1, nrows, ncols),
            if cfg.has_vertical_spec(end - 1, nrows, ncols) {
                1
            } else {
                0
            },
        )
    }
}

/// Counts the vertical grid lines strictly between the boundaries `start`
/// and `end`.
pub fn count_borders(cfg: &GridConfig, start: usize, end: usize, nrows: usize, ncols: usize) -> (r: usize)
    requires
        start <= end,
        end <= ncols,
    ensures
        r == borders_between(*cfg, start as int, end as int, nrows as int, ncols as int),
{
    let mut acc: usize = 0;
    if end <= start {
        return 0;
    }
    if end - start == 1 {
        return 0;
    }
    let mut i: usize = start + 1;
    while i < end
        invariant
            start + 1 <= i <= end,
            end <= ncols,
            acc == borders_between(*cfg, start as int, i as int, nrows as int, ncols as int),
        decreases end - i,
    {
        let line: usize = if cfg.has_vertical(i, nrows, ncols) {
            1
        } else {
            0
        };
        acc = usat_add(acc, line);
        i = i + 1;
    }
    acc
}

/// The cell at `(r, c)` as a truncation target: skipped when another
/// cell's span covers it or when its block is already narrower than its
/// floor; otherwise the position with the content room its block leaves
/// after padding.
pub open spec fn decrease_point(
    cfg: GridConfig,
    widths: Seq<usize>,
    mins: Seq<usize>,
    r: usize,
    c: usize,
    nrows: int,
    ncols: int,
) -> Option<((usize, usize), usize)> {
    if is_covered_spec(cfg, r as int, c as int, nrows, ncols) {
        None
    } else {
        let cend = col_span_end(cfg, r as int, c as int, ncols);
        let w = crate::estimate::block_width_sum(cfg, widths, c as int, cend, nrows, ncols);
        let m = crate::estimate::block_width_sum(cfg, mins, c as int, cend, nrows, ncols);
        if w >= m {
            let pad = cfg.padding_spec(r as int, c as int);
            Some(((r, c), ssub(w, sadd(pad.left.size, pad.right.size))))
        } else {
            None
        }
    }
}

/// The truncation targets of column `c` among the rows `0 .. r`.
pub open spec fn points_in_col(
    cfg: GridConfig,
    widths: Seq<usize>,
    mins: Seq<usize>,
    c: usize,
    r: int,
    nrows: int,
    ncols: int,
) -> Seq<((usize, usize), usize)>
    decreases r,
{
    if r <= 0 {
        Seq::empty()
    } else {
        points_in_col(cfg, widths, mins, c, r - 1, nrows, ncols) + (match decrease_point(
            cfg,
            widths,
            mins,
            (r - 1) as usize,
            c,
            nrows,
            ncols,
        ) {
            Some(p) => seq![p],
            None => Seq::empty(),
        })
    }
}

/// The truncation targets of the columns `0 .. c`, column by column.
pub open spec fn points_upto(
    cfg: GridConfig,
    widths: Seq<usize>,
    mins: Seq<usize>,
    c: int,
    nrows: int,
    ncols: int,
) -> Seq<((usize, usize), usize)>
    decreases c,
{
    if c <= 0 {
        Seq::empty()
    } else {
        points_upto(cfg, widths, mins, c - 1, nrows, ncols) + points_in_col(
            cfg,
            widths,
            mins,
            (c - 1) as usize,
            nrows,
            nrows,
            ncols,
        )
    }
}

/// Lists every visible cell with the content room its block leaves under
/// the adjusted widths, column by column.
pub fn get_decrease_cell_list(
    cfg: &GridConfig,
    widths: &Vec<usize>,
    min_widths: &Vec<usize>,
    nrows: usize,
    ncols: usize,
) -> (r: Vec<((usize, usize), usize)>)
    requires
        widths@.len() == ncols,
        min_widths@.len() == ncols,
    ensures
        r@ == points_upto(*cfg, widths@, min_widths@, ncols as int, nrows as int, ncols as int),
{
    let mut out: Vec<((usize, usize), usize)> = Vec::new();
    let mut c: usize = 0;
    proof {
        assert(out@ =~= points_upto(
            *cfg,
            widths@,
            min_widths@,
            0,
            nrows as int,
            ncols as int,
        ));
    }
    while c < ncols
        invariant
            c <= ncols,
            widths@.len() == ncols,
            min_widths@.len() == ncols,
            out@ == points_upto(*cfg, widths@, min_widths@, c as int, nrows as int, ncols as int),
        decreases ncols - c,
    {
        let mut r: usize = 0;
        let ghost base = out@;
        proof {
            assert(base + points_in_col(
                *cfg,
                widths@,
                min_widths@,
                c,
                0,
                nrows as int,
                ncols as int,
            ) =~= base);
        }
        while r < nrows
            invariant
                r <= nrows,
                c < ncols,
                widths@.len() == ncols,
                min_widths@.len() == ncols,
                out@ == base + points_in_col(
                    *cfg,
                    widths@,
                    min_widths@,
                    c,
                    r as int,
                    nrows as int,
                    ncols as int,
                ),
            decreases nrows - r,
        {
            let ghost before = out@;
            let covered = owner_of(cfg, r, c, nrows, ncols).is_some();
            if !covered {
                let cend = col_span_end_at(cfg, r, c, ncols);
                let w = crate::estimate::block_width_sum_at(cfg, widths, c, cend, nrows, ncols);
                let m = crate::estimate::block_width_sum_at(cfg, min_widths, c, cend, nrows, ncols);
                if w >= m {
                    let pad = cfg.get_padding(r, c);
                    let room = usat_sub(w, usat_add(pad.left.size, pad.right.size));
                    out.push(((r, c), room));
                }
            }
            proof {
                assert(out@ =~= base + points_in_col(
                    *cfg,
                    widths@,
                    min_widths@,
                    c,
                    r + 1,
                    nrows as int,
                    ncols as int,
                ));
            }
            r = r + 1;
        }
        c = c + 1;
    }
    out
}

/// One truncation target applied to the grid: the cell's text cut to the
/// target's room.
pub open spec fn apply_point_spec(
    grid: Seq<Seq<Seq<char>>>,
    tab: nat,
    sfx: Option<TruncateSuffix>,
    p: ((usize, usize), usize),
) -> Seq<Seq<Seq<char>>> {
    let r = p.0.0;
    let c = p.0.1;
    let w = p.1;
    if (r as int) < grid.len() && (c as int) < grid[r as int].len() {
        grid.update(
            r as int,
            grid[r as int].update(
                c as int,
                cell_truncated_full_spec(grid[r as int][c as int], tab, w, sfx),
            ),
        )
    } else {
        grid
    }
}

/// The truncation targets `i ..` applied to the grid in order.
pub open spec fn apply_points_spec(
    grid: Seq<Seq<Seq<char>>>,
    tab: nat,
    sfx: Option<TruncateSuffix>,
    points: Seq<((usize, usize), usize)>,
    i: int,
) -> Seq<Seq<Seq<char>>>
    decreases points.len() - i,
{
    if i < 0 || i >= points.len() {
        grid
    } else {
        apply_points_spec(apply_point_spec(grid, tab, sfx, points[i]), tab, sfx, points, i + 1)
    }
}

impl Truncate {
    /// Applies the truncation to the whole table: estimates the widths,
    /// and when their total exceeds the budget, shrinks them to it and
    /// cuts the affected cells, handing back the adjusted widths.  A
    /// table that already fits, or an empty one, is left untouched.
    pub fn change_table(&self, records: &mut Records, cfg: &GridConfig) -> (r: Option<Vec<usize>>)
        requires
            old(records).wf(),
        ensures
            final(records).wf(),
            final(records).row_count_spec() == old(records).row_count_spec(),
            final(records).col_count_spec() == old(records).col_count_spec(),
            match r {
                None => *final(records) == *old(records) && (old(records).row_count_spec() == 0
                    || old(records).col_count_spec() == 0 || crate::estimate::total_width_spec(
                    *cfg,
                    crate::estimate::widths_spec(*old(records), *cfg),
                    old(records).row_count_spec() as int,
                    old(records).col_count_spec() as int,
                ) <= self.width),
                Some(ws) => {
                    let widths0 = crate::estimate::widths_spec(*old(records), *cfg);
                    let mins = crate::estimate::min_widths_spec(
                        *cfg,
                        old(records).col_count_spec() as int,
                        old(records).row_count_spec() as int,
                    );
                    let total = crate::estimate::total_width_spec(
                        *cfg,
                        widths0,
                        old(records).row_count_spec() as int,
                        old(records).col_count_spec() as int,
                    );
                    &&& total > self.width
                    &&& old(records).row_count_spec() > 0
                    &&& old(records).col_count_spec() > 0
                    &&& ws@ == decrease_spec(
                        widths0,
                        mins,
                        self.priority,
                        0,
                        crate::text::sat_sub(total as nat, self.width as nat),
                    )
                    &&& final(records).grid() == apply_points_spec(
                        old(records).grid(),
                        cfg.tab_width as nat,
                        self.suffix,
                        points_upto(
                            *cfg,
                            ws@,
                            mins,
                            old(records).col_count_spec() as int,
                            old(records).row_count_spec() as int,
                            old(records).col_count_spec() as int,
                        ),
                        0,
                    )
                },
            },
    {
        let nrows = records.count_rows();
        let ncols = records.count_columns();
        if nrows == 0 || ncols == 0 {
            return None;
        }
        let widths = crate::estimate::estimate_widths(records, cfg);
        let total = crate::estimate::total_width(cfg, &widths, nrows, ncols);
        if total <= self.width {
            return None;
        }
        let ws = truncate_total_width(records, cfg, widths, self.width, self.priority, &self.suffix);
        Some(ws)
    }
}

/// Shrinks the columns to the target total width and cuts every affected
/// cell to the room its column leaves.  The columns never fall below
/// their padding floors: when the floors already exceed the target the
/// result is the best width reachable, not an error.
pub fn truncate_total_width(
    records: &mut Records,
    cfg: &GridConfig,
    widths: Vec<usize>,
    target: usize,
    priority: Priority,
    suffix: &Option<TruncateSuffix>,
) -> (r: Vec<usize>)
    requires
        old(records).wf(),
        widths@.len() == old(records).col_count_spec(),
    ensures
        final(records).wf(),
        final(records).row_count_spec() == old(records).row_count_spec(),
        final(records).col_count_spec() == old(records).col_count_spec(),
        r@ == decrease_spec(
            widths@,
            crate::estimate::min_widths_spec(
                *cfg,
                old(records).col_count_spec() as int,
                old(records).row_count_spec() as int,
            ),
            priority,
            0,
            crate::text::sat_sub(
                crate::estimate::total_width_spec(
                    *cfg,
                    widths@,
                    old(records).row_count_spec() as int,
                    old(records).col_count_spec() as int,
                ) as nat,
                target as nat,
            ),
        ),
        final(records).grid() == apply_points_spec(
            old(records).grid(),
            cfg.tab_width as nat,
            *suffix,
            points_upto(
                *cfg,
                r@,
                crate::estimate::min_widths_spec(
                    *cfg,
                    old(records).col_count_spec() as int,
                    old(records).row_count_spec() as int,
                ),
                old(records).col_count_spec() as int,
                old(records).row_count_spec() as int,
                old(records).col_count_spec() as int,
            ),
            0,
        ),
{
    let nrows = records.count_rows();
    let ncols = records.count_columns();
    let tab = cfg.get_tab_width();
    let min_widths = crate::estimate::estimate_min_widths(cfg, nrows, ncols);
    let total = crate::estimate::total_width(cfg, &widths, nrows, ncols);
    let count = usat_sub(total, target);
    let mut new_widths = widths;
    decrease_widths(&mut new_widths, &min_widths, count, priority);
    let points = get_decrease_cell_list(cfg, &new_widths, &min_widths, nrows, ncols);
    let ghost pointsv = points@;
    let mut i: usize = 0;
    proof {
        old(records).lemma_grid_shape();
    }
    while i < points.len()
        invariant
            i <= points@.len(),
            points@ == pointsv,
            records.wf(),
            nrows == records.row_count_spec(),
            ncols == records.col_count_spec(),
            nrows == old(records).row_count_spec(),
            ncols == old(records).col_count_spec(),
            tab == cfg.tab_width,
            apply_points_spec(old(records).grid(), tab as nat, *suffix, pointsv, 0)
                == apply_points_spec(records.grid(), tab as nat, *suffix, pointsv, i as int),
        decreases points@.len() - i,
    {
        let p = points[i];
        proof {
            records.lemma_grid_shape();
        }
        let ghost g0 = records.grid();
        let r = p.0.0;
        let c = p.0.1;
        if r < nrows && c < ncols {
            truncate_cell(records, tab, p.1, suffix, r, c);
            proof {
                records.lemma_grid_shape();
                assert(records.grid() =~~= apply_point_spec(
                    g0,
                    tab as nat,
                    *suffix,
                    pointsv[i as int],
                ));
            }
        } else {
            proof {
                assert(records.grid() =~~= apply_point_spec(
                    g0,
                    tab as nat,
                    *suffix,
                    pointsv[i as int],
                ));
            }
        }
        i = i + 1;
    }
    new_widths
}

pub proof fn lemma_narrowest_in_range(widths: Seq<usize>, mins: Seq<usize>, upto: int)
    requires
        narrowest_shrinkable(widths, mins, upto) is Some,
    ensures
        0 <= narrowest_shrinkable(widths, mins, upto).unwrap() < upto,
        shrinkable(widths, mins, narrowest_shrinkable(widths, mins, upto).unwrap()),
    decreases upto,
{
    if upto > 0 {
        if narrowest_shrinkable(widths, mins, upto) == narrowest_shrinkable(
            widths,
            mins,
            upto - 1,
        ) {
            lemma_narrowest_in_range(widths, mins, upto - 1);
        }
    }
}

} // verus!
