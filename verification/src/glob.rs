//! Glob-style patterns on names: `*` stands for any run of characters, every
//! other character for itself.

use vstd::prelude::*;

use crate::text::to_chars;

verus! {

/// Whether the whole of `text` matches `pattern`.
pub open spec fn glob_matches(pattern: Seq<char>, text: Seq<char>) -> bool
    decreases pattern.len(), text.len(),
{
    if pattern.len() == 0 {
        text.len() == 0
    } else if pattern[0] == '*' {
        glob_matches(pattern.drop_first(), text) || (text.len() > 0 && glob_matches(
            pattern,
            text.drop_first(),
        ))
    } else {
        text.len() > 0 && text[0] == pattern[0] && glob_matches(
            pattern.drop_first(),
            text.drop_first(),
        )
    }
}

/// One row of the matching table: for the pattern from `i` on, `cells[j]` says
/// whether the text from `j` on matches it, for every `j` from `from` up, and
/// `end` says whether the empty rest of the text does.
spec fn row_holds(
    cells: Seq<bool>,
    end: bool,
    pattern: Seq<char>,
    text: Seq<char>,
    i: int,
    from: int,
) -> bool {
    &&& cells.len() == text.len()
    &&& end == glob_matches(pattern.skip(i), text.skip(text.len() as int))
    &&& forall|j: int|
        from <= j < text.len() ==> cells[j] == glob_matches(
            pattern.skip(i),
            #[trigger] text.skip(j),
        )
}

proof fn lemma_skip_step(s: Seq<char>, i: int)
    requires
        0 <= i < s.len(),
    ensures
        s.skip(i).len() > 0,
        s.skip(i)[0] == s[i],
        s.skip(i).drop_first() == s.skip(i + 1),
{
    assert(s.skip(i).drop_first() =~= s.skip(i + 1));
}

/// The row for the empty rest of a pattern: only the empty rest of the text
/// matches it.
fn last_row(pattern: &Vec<char>, text: &Vec<char>) -> (row: (Vec<bool>, bool))
    ensures
        row_holds(row.0@, row.1, pattern@, text@, pattern@.len() as int, 0),
{
    let n: usize = text.len();
    let mut cells: Vec<bool> = Vec::new();
    let mut j: usize = 0;
    while j < n
        invariant
            n == text@.len(),
            j <= n,
            cells@.len() == j,
            forall|k: int| 0 <= k < j ==> !cells@[k],
        decreases n - j,
    {
        cells.push(false);
        j += 1;
    }
    proof {
        assert(pattern@.skip(pattern@.len() as int).len() == 0);
        assert(text@.skip(n as int).len() == 0);
        assert forall|k: int| 0 <= k < text@.len() implies cells@[k] == glob_matches(
            pattern@.skip(pattern@.len() as int),
            #[trigger] text@.skip(k),
        ) by {
            assert(text@.skip(k).len() == n - k);
        }
    }
    (cells, true)
}

/// The row for the pattern from `i` on, given the row for the pattern from
/// `i + 1` on.
fn previous_row(
    pattern: &Vec<char>,
    text: &Vec<char>,
    i: usize,
    below: &Vec<bool>,
    below_end: bool,
) -> (row: (Vec<bool>, bool))
    requires
        i < pattern@.len(),
        row_holds(below@, below_end, pattern@, text@, i + 1, 0),
    ensures
        row_holds(row.0@, row.1, pattern@, text@, i as int, 0),
{
    let n: usize = text.len();
    let c: char = pattern[i];
    let end: bool = c == '*' && below_end;
    proof {
        lemma_skip_step(pattern@, i as int);
        assert(text@.skip(n as int).len() == 0);
    }
    let mut cells: Vec<bool> = below.clone();
    let mut j: usize = n;
    while j > 0
        invariant
            n == text@.len(),
            i < pattern@.len(),
            c == pattern@[i as int],
            j <= n,
            row_holds(below@, below_end, pattern@, text@, i + 1, 0),
            row_holds(cells@, end, pattern@, text@, i as int, j as int),
        decreases j,
    {
        j -= 1;
        let below_next: bool = if j + 1 < n {
            below[j + 1]
        } else {
            below_end
        };
        let here_next: bool = if j + 1 < n {
            cells[j + 1]
        } else {
            end
        };
        let hit: bool = if c == '*' {
            below[j] || here_next
        } else {
            text[j] == c && below_next
        };
        proof {
            lemma_skip_step(pattern@, i as int);
            lemma_skip_step(text@, j as int);
            assert(hit == glob_matches(pattern@.skip(i as int), text@.skip(j as int)));
        }
        cells.set(j, hit);
    }
    (cells, end)
}

/// Whether the whole of `text` matches the glob `pattern`.
pub fn glob_match(pattern: &str, text: &str) -> (r: bool)
    ensures
        r == glob_matches(pattern@, text@),
{
    let p: Vec<char> = to_chars(pattern);
    let t: Vec<char> = to_chars(text);
    let mut row: (Vec<bool>, bool) = last_row(&p, &t);
    let mut i: usize = p.len();
    while i > 0
        invariant
            i <= p@.len(),
            row_holds(row.0@, row.1, p@, t@, i as int, 0),
        decreases i,
    {
        i -= 1;
        row = previous_row(&p, &t, i, &row.0, row.1);
    }
    proof {
        assert(p@.skip(0) =~= p@);
        assert(t@.skip(0) =~= t@);
    }
    if t.len() == 0 {
        row.1
    } else {
        row.0[0]
    }
}

} // verus!
