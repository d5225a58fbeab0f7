//! Character-level text utilities shared by the estimator, the width
//! adjusters and the renderer.
//!
//! The width policy of the whole crate is fixed here: after tabs are expanded
//! to spaces, every character counts as exactly one column and `'\n'` splits
//! lines.  Cell text never carries layout-relevant escape sequences; colors
//! live in the configuration, out of band.

use vstd::prelude::*;

verus! {

/// Addition of two sizes, saturating at `usize::MAX`.
pub open spec fn sat_add(a: nat, b: nat) -> nat {
    if a + b > usize::MAX as nat {
        usize::MAX as nat
    } else {
        a + b
    }
}

/// Subtraction of two sizes, saturating at zero.
pub open spec fn sat_sub(a: nat, b: nat) -> nat {
    if a >= b {
        (a - b) as nat
    } else {
        0
    }
}

/// [`sat_add`] over machine sizes.
pub open spec fn sadd(a: usize, b: usize) -> usize {
    sat_add(a as nat, b as nat) as usize
}

/// [`sat_sub`] over machine sizes.
pub open spec fn ssub(a: usize, b: usize) -> usize {
    sat_sub(a as nat, b as nat) as usize
}

/// A length capped at the machine size.
pub open spec fn width_cap(n: nat) -> usize {
    if n > usize::MAX {
        usize::MAX
    } else {
        n as usize
    }
}

/// Executable saturating addition; mirrors [`sat_add`].
pub fn usat_add(a: usize, b: usize) -> (r: usize)
    ensures
        r == sat_add(a as nat, b as nat),
        r == sadd(a, b),
{
    if a > usize::MAX - b {
        usize::MAX
    } else {
        a + b
    }
}

/// Executable saturating subtraction; mirrors [`sat_sub`].
pub fn usat_sub(a: usize, b: usize) -> (r: usize)
    ensures
        r == sat_sub(a as nat, b as nat),
        r == ssub(a, b),
{
    if a >= b {
        a - b
    } else {
        0
    }
}

/// `n` copies of the character `c`.
pub open spec fn char_fill(n: nat, c: char) -> Seq<char>
    decreases n,
{
    if n == 0 {
        Seq::empty()
    } else {
        char_fill((n - 1) as nat, c).push(c)
    }
}

pub proof fn lemma_char_fill_len(n: nat, c: char)
    ensures
        char_fill(n, c).len() == n,
        forall|i: int| 0 <= i < n ==> char_fill(n, c)[i] == c,
    decreases n,
{
    if n > 0 {
        lemma_char_fill_len((n - 1) as nat, c);
    }
}

/// Builds `n` copies of `c`.
pub fn fill_chars(n: usize, c: char) -> (r: Vec<char>)
    ensures
        r@ == char_fill(n as nat, c),
{
    let mut out: Vec<char> = Vec::new();
    let mut i: usize = 0;
    while i < n
        invariant
            i <= n,
            out@ == char_fill(i as nat, c),
        decreases n - i,
    {
        out.push(c);
        i = i + 1;
    }
    out
}

/// Appends `n` copies of `c` to `out`.
pub fn push_fill(out: &mut Vec<char>, n: usize, c: char)
    ensures
        final(out)@ == old(out)@ + char_fill(n as nat, c),
{
    let ghost base = out@;
    let mut i: usize = 0;
    while i < n
        invariant
            i <= n,
            out@ == base + char_fill(i as nat, c),
        decreases n - i,
    {
        out.push(c);
        i = i + 1;
    }
}

/// The characters of `s` as a vector.
pub fn chars_vec(s: &str) -> (r: Vec<char>)
    ensures
        r@ == s@,
{
    let n: usize = s.unicode_len();
    let mut out: Vec<char> = Vec::new();
    let mut i: usize = 0;
    while i < n
        invariant
            i <= n,
            n == s@.len(),
            out@ == s@.subrange(0, i as int),
        decreases n - i,
    {
        out.push(s.get_char(i));
        proof {
            assert(out@ =~= s@.subrange(0, i + 1));
        }
        i = i + 1;
    }
    proof {
        assert(out@ =~= s@);
    }
    out
}

/// Relies on `String::push` from std: appends one character to the string.
pub assume_specification[ String::push ](s: &mut String, c: char)
    ensures
        final(s)@ == old(s)@.push(c),
;

/// A string holding exactly the characters of `v`.
pub fn string_from_chars(v: &Vec<char>) -> (r: String)
    ensures
        r@ == v@,
{
    let mut out = String::new();
    let mut i: usize = 0;
    while i < v.len()
        invariant
            i <= v@.len(),
            out@ == v@.subrange(0, i as int),
        decreases v@.len() - i,
    {
        out.push(v[i]);
        proof {
            assert(out@ =~= v@.subrange(0, i + 1));
        }
        i = i + 1;
    }
    proof {
        assert(out@ =~= v@);
    }
    out
}

/// `s` with every tab replaced by `tab_width` spaces.
pub open spec fn expand_tabs_spec(s: Seq<char>, tab_width: nat) -> Seq<char>
    decreases s.len(),
{
    if s.len() == 0 {
        Seq::empty()
    } else if s[0] == '\t' {
        char_fill(tab_width, ' ') + expand_tabs_spec(s.skip(1), tab_width)
    } else {
        seq![s[0]] + expand_tabs_spec(s.skip(1), tab_width)
    }
}

/// Replaces every tab in `s` by `tab_width` spaces.
pub fn expand_tabs(s: &Vec<char>, tab_width: usize) -> (r: Vec<char>)
    ensures
        r@ == expand_tabs_spec(s@, tab_width as nat),
{
    let mut out: Vec<char> = Vec::new();
    let mut i: usize = 0;
    proof {
        assert(s@.skip(0) =~= s@);
    }
    while i < s.len()
        invariant
            i <= s@.len(),
            out@ + expand_tabs_spec(s@.skip(i as int), tab_width as nat) == expand_tabs_spec(
                s@,
                tab_width as nat,
            ),
        decreases s@.len() - i,
    {
        proof {
            assert(s@.skip(i as int)[0] == s@[i as int]);
            assert(s@.skip(i as int).skip(1) =~= s@.skip(i + 1));
        }
        let ghost out0 = out@;
        if s[i] == '\t' {
            push_fill(&mut out, tab_width, ' ');
        } else {
            out.push(s[i]);
            proof {
                assert(out@ =~= out0 + seq![s@[i as int]]);
            }
        }
        proof {
            assert(out@ + expand_tabs_spec(s@.skip(i + 1), tab_width as nat) =~= expand_tabs_spec(
                s@,
                tab_width as nat,
            ));
        }
        i = i + 1;
    }
    proof {
        assert(s@.skip(s@.len() as int) =~= Seq::<char>::empty());
        assert(out@ =~= expand_tabs_spec(s@, tab_width as nat));
    }
    out
}

/// The lines of `s`, split at every `'\n'`; a text with no newline is one
/// line, and each newline starts a further line.
pub open spec fn split_lines_spec(s: Seq<char>) -> Seq<Seq<char>>
    decreases s.len(),
{
    if s.len() == 0 {
        seq![Seq::empty()]
    } else if s[0] == '\n' {
        seq![Seq::<char>::empty()] + split_lines_spec(s.skip(1))
    } else {
        let rest = split_lines_spec(s.skip(1));
        seq![seq![s[0]] + rest[0]] + rest.skip(1)
    }
}

/// The views of a vector of character lines.
pub open spec fn lines_view(v: Seq<Vec<char>>) -> Seq<Seq<char>> {
    Seq::new(v.len(), |i: int| v[i]@)
}

pub proof fn lemma_lines_view_push(pre: Seq<Vec<char>>, x: Vec<char>)
    ensures
        lines_view(pre.push(x)) =~= lines_view(pre).push(x@),
{
}

/// Splits `s` into its lines at every `'\n'`.
pub fn split_lines(s: &Vec<char>) -> (r: Vec<Vec<char>>)
    ensures
        lines_view(r@) == split_lines_spec(s@),
        r@.len() >= 1,
{
    let mut out: Vec<Vec<char>> = Vec::new();
    let mut cur: Vec<char> = Vec::new();
    let mut i: usize = 0;
    proof {
        assert(s@.skip(0) =~= s@);
        assert(lines_view(out@) =~= Seq::<Seq<char>>::empty());
    }
    while i < s.len()
        invariant
            i <= s@.len(),
            split_lines_spec(s@) == lines_view(out@) + seq![cur@ + split_lines_spec(
                s@.skip(i as int),
            )[0]] + split_lines_spec(s@.skip(i as int)).skip(1),
        decreases s@.len() - i,
    {
        proof {
            assert(s@.skip(i as int)[0] == s@[i as int]);
            assert(s@.skip(i as int).skip(1) =~= s@.skip(i + 1));
        }
        let ghost prev = s@.skip(i as int);
        let ghost next = s@.skip(i + 1);
        let ghost out0 = out@;
        let ghost cur0 = cur@;
        if s[i] == '\n' {
            let done = cur;
            cur = Vec::new();
            out.push(done);
            proof {
                assert(split_lines_spec(prev) =~= seq![Seq::<char>::empty()] + split_lines_spec(
                    next,
                ));
                lemma_lines_view_push(out0, out@[out@.len() - 1]);
                assert(lines_view(out@) =~= lines_view(out0).push(cur0));
                assert(cur0 + split_lines_spec(prev)[0] =~= cur0);
                assert(lines_view(out@) + seq![cur@ + split_lines_spec(next)[0]]
                    + split_lines_spec(next).skip(1) =~= split_lines_spec(s@));
            }
        } else {
            cur.push(s[i]);
            proof {
                let rest = split_lines_spec(next);
                assert(split_lines_spec(prev) =~= seq![seq![prev[0]] + rest[0]] + rest.skip(1));
                assert(split_lines_spec(prev)[0] =~= seq![s@[i as int]] + rest[0]);
                assert(cur@ + rest[0] =~= cur0 + split_lines_spec(prev)[0]);
                assert(lines_view(out@) + seq![cur@ + rest[0]] + rest.skip(1)
                    =~= split_lines_spec(s@));
            }
        }
        i = i + 1;
    }
    proof {
        assert(s@.skip(s@.len() as int) =~= Seq::<char>::empty());
        assert(split_lines_spec(Seq::<char>::empty()) =~= seq![Seq::<char>::empty()]);
    }
    let ghost out0 = out@;
    let ghost cur0 = cur@;
    let last = cur;
    out.push(last);
    proof {
        lemma_lines_view_push(out0, out@[out@.len() - 1]);
        assert(cur0 + Seq::<char>::empty() =~= cur0);
        assert(lines_view(out@) =~= split_lines_spec(s@));
    }
    out
}

/// The first `n` characters of `s`, or all of `s` when it is shorter.
pub open spec fn cut_spec(s: Seq<char>, n: nat) -> Seq<char> {
    if s.len() <= n {
        s
    } else {
        s.take(n as int)
    }
}

/// Cuts `s` down to its first `width` characters.
pub fn cut_chars(s: &Vec<char>, width: usize) -> (r: Vec<char>)
    ensures
        r@ == cut_spec(s@, width as nat),
{
    let mut out: Vec<char> = Vec::new();
    let mut i: usize = 0;
    let n: usize = if s.len() <= width {
        s.len()
    } else {
        width
    };
    while i < n
        invariant
            i <= n,
            n <= s@.len(),
            n == if s@.len() <= width {
                s@.len() as int
            } else {
                width as int
            },
            out@ == s@.take(n as int).take(i as int),
        decreases n - i,
    {
        out.push(s[i]);
        proof {
            assert(out@ =~= s@.take(n as int).take(i + 1));
        }
        i = i + 1;
    }
    proof {
        assert(s@.take(n as int).take(n as int) =~= s@.take(n as int));
        if s@.len() <= width {
            assert(s@.take(n as int) =~= s@);
        }
    }
    out
}

/// Whether `c` is blank under the trim rules (a space; tabs are expanded to
/// spaces before trimming).
pub open spec fn is_blank_char(c: char) -> bool {
    c == ' '
}

/// The number of leading blanks of `s`.
pub open spec fn leading_blanks(s: Seq<char>) -> nat
    decreases s.len(),
{
    if s.len() == 0 || !is_blank_char(s[0]) {
        0
    } else {
        1 + leading_blanks(s.skip(1))
    }
}

/// `s` with leading and trailing blanks removed.
pub open spec fn trim_spec(s: Seq<char>) -> Seq<char> {
    let front = leading_blanks(s);
    let back = leading_blanks(s.skip(front as int).reverse());
    s.skip(front as int).reverse().skip(back as int).reverse()
}

/// `leading_blanks` equals the first index that stops a left-to-right scan
/// over blanks.
pub proof fn lemma_leading_blanks_eq(s: Seq<char>, k: int)
    requires
        0 <= k <= s.len(),
        forall|j: int| 0 <= j < k ==> is_blank_char(#[trigger] s[j]),
        k < s.len() ==> !is_blank_char(s[k]),
    ensures
        leading_blanks(s) == k,
    decreases k,
{
    if k == 0 {
    } else {
        assert(is_blank_char(s[0]));
        assert forall|j: int| 0 <= j < k - 1 implies is_blank_char(#[trigger] s.skip(1)[j]) by {
            assert(s.skip(1)[j] == s[j + 1]);
        }
        if k - 1 < s.skip(1).len() {
            assert(s.skip(1)[k - 1] == s[k]);
        }
        lemma_leading_blanks_eq(s.skip(1), k - 1);
    }
}

/// Removes leading and trailing spaces from `s`.
pub fn trim_blanks(s: &Vec<char>) -> (r: Vec<char>)
    ensures
        r@ == trim_spec(s@),
{
    let mut start: usize = 0;
    while start < s.len() && s[start] == ' '
        invariant
            start <= s@.len(),
            forall|j: int| 0 <= j < start ==> is_blank_char(#[trigger] s@[j]),
        decreases s@.len() - start,
    {
        start = start + 1;
    }
    proof {
        lemma_leading_blanks_eq(s@, start as int);
    }
    let mut end: usize = s.len();
    while end > start && s[end - 1] == ' '
        invariant
            start <= end <= s@.len(),
            forall|j: int| end <= j < s@.len() ==> is_blank_char(#[trigger] s@[j]),
        decreases end,
    {
        end = end - 1;
    }
    proof {
        let tail = s@.skip(start as int);
        let rev = tail.reverse();
        let k = s@.len() - end;
        assert forall|j: int| 0 <= j < k implies is_blank_char(#[trigger] rev[j]) by {
            assert(rev[j] == tail[tail.len() - 1 - j]);
            assert(tail[tail.len() - 1 - j] == s@[s@.len() - 1 - j]);
        }
        if k < rev.len() {
            assert(end > start);
            assert(rev[k as int] == tail[tail.len() - 1 - k]);
            assert(tail[tail.len() - 1 - k] == s@[end - 1]);
        }
        lemma_leading_blanks_eq(rev, k as int);
    }
    let mut out: Vec<char> = Vec::new();
    let mut i: usize = start;
    while i < end
        invariant
            start <= i <= end <= s@.len(),
            out@ == s@.subrange(start as int, i as int),
        decreases end - i,
    {
        out.push(s[i]);
        proof {
            assert(out@ =~= s@.subrange(start as int, i + 1));
        }
        i = i + 1;
    }
    proof {
        let front = leading_blanks(s@) as int;
        let back = leading_blanks(s@.skip(front).reverse()) as int;
        assert(front == start && back == s@.len() - end);
        assert(s@.skip(front).reverse().skip(back).reverse() =~= s@.subrange(
            start as int,
            end as int,
        ));
    }
    out
}

} // verus!
