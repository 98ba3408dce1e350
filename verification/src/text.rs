//! Character-level helpers on names, stated over `Seq<char>`.

use vstd::prelude::*;
use vstd::string::*;

use crate::seqs::{first_index, lemma_first_index, lemma_first_index_is};

verus! {

broadcast use vstd::string::group_string_axioms;

/// What follows the first `c` in `s`; the empty sequence where `s` holds no `c`.
pub open spec fn after_first(s: Seq<char>, c: char) -> Seq<char> {
    match first_index(s, c) {
        Some(i) => s.skip(i + 1),
        None => Seq::empty(),
    }
}

/// What precedes the first `c` in `s`; all of `s` where it holds no `c`.
pub open spec fn before_first(s: Seq<char>, c: char) -> Seq<char> {
    match first_index(s, c) {
        Some(i) => s.take(i),
        None => s,
    }
}

/// `s` holds `c` exactly once.
pub open spec fn occurs_once(s: Seq<char>, c: char) -> bool {
    s.contains(c) && !after_first(s, c).contains(c)
}

/// A sequence that holds `c` is what precedes its first `c`, then `c`, then
/// what follows it, and what precedes it holds no `c`.
pub proof fn lemma_split_at_first(s: Seq<char>, c: char)
    requires
        s.contains(c),
    ensures
        s == before_first(s, c) + seq![c] + after_first(s, c),
        !before_first(s, c).contains(c),
{
    lemma_first_index(s, c);
    let i = first_index(s, c).unwrap();
    assert(s =~= s.take(i) + seq![c] + s.skip(i + 1));
    if s.take(i).contains(c) {
        let j = choose|j: int| 0 <= j < s.take(i).len() && s.take(i)[j] == c;
        assert(s[j] == c);
    }
}

/// Two parts without `c`, joined by one `c`, hold `c` exactly once, and the
/// second part is what follows it.
pub proof fn lemma_joined_once(before: Seq<char>, after: Seq<char>, c: char)
    requires
        !before.contains(c),
        !after.contains(c),
    ensures
        occurs_once(before + seq![c] + after, c),
        before_first(before + seq![c] + after, c) == before,
        after_first(before + seq![c] + after, c) == after,
{
    let s = before + seq![c] + after;
    let i = before.len() as int;
    assert(s[i] == c);
    assert forall|j: int| 0 <= j < i implies s[j] != c by {
        assert(s[j] == before[j]);
    }
    lemma_first_index_is(s, c, i);
    assert(s.skip(i + 1) =~= after);
    assert(s.take(i) =~= before);
}

/// Where `s` holds `c` exactly once and ends with `c` followed by `rest`,
/// `rest` is what follows the `c`.
pub proof fn lemma_after_first_is_suffix(s: Seq<char>, rest: Seq<char>, c: char)
    requires
        occurs_once(s, c),
        (seq![c] + rest).is_suffix_of(s),
    ensures
        after_first(s, c) == rest,
{
    lemma_first_index(s, c);
    let i = first_index(s, c).unwrap();
    let tail = seq![c] + rest;
    let p = s.len() - tail.len();
    assert(s.subrange(p, s.len() as int)[0] == tail[0]);
    assert(s[p] == c);
    if i < p {
        assert(s.skip(i + 1)[p - i - 1] == c);
    }
    assert(i == p);
    assert forall|j: int| 0 <= j < rest.len() implies s.skip(i + 1)[j] == rest[j] by {
        assert(s.subrange(p, s.len() as int)[j + 1] == tail[j + 1]);
    }
    assert(s.skip(i + 1) =~= rest);
}

/// What a part of `s` holds, `s` holds.
pub proof fn lemma_skip_contains(s: Seq<char>, n: int, c: char)
    requires
        0 <= n <= s.len(),
        s.skip(n).contains(c),
    ensures
        s.contains(c),
{
    let j = choose|j: int| 0 <= j < s.skip(n).len() && s.skip(n)[j] == c;
    assert(s[j + n] == c);
}

/// What the second of two joined parts holds, the whole holds.
pub proof fn lemma_concat_contains(a: Seq<char>, b: Seq<char>, c: char)
    requires
        b.contains(c),
    ensures
        (a + b).contains(c),
{
    let j = choose|j: int| 0 <= j < b.len() && b[j] == c;
    assert((a + b)[a.len() + j] == c);
}

/// The position of the first `c` in `s`.
pub fn find_char(s: &str, c: char) -> (r: Option<usize>)
    ensures
        match r {
            Some(i) => first_index(s@, c) == Some(i as int) && i < usize::MAX,
            None => first_index(s@, c) is None,
        },
{
    let n: usize = s.unicode_len();
    let mut i: usize = 0;
    for current in it: s.chars()
        invariant
            it.seq() == s@,
            n == s@.len(),
            i == it.index(),
            forall|j: int| 0 <= j < i ==> s@[j] != c,
    {
        if current == c {
            proof {
                lemma_first_index_is(s@, c, i as int);
            }
            return Some(i);
        }
        i += 1;
    }
    proof {
        lemma_first_index(s@, c);
    }
    None
}

/// Whether `s` holds `c`.
pub fn contains_char(s: &str, c: char) -> (r: bool)
    ensures
        r == s@.contains(c),
{
    proof {
        lemma_first_index(s@, c);
    }
    find_char(s, c).is_some()
}

/// The characters of `s` from position `n` on.
pub fn skip_chars(s: &str, n: usize) -> (r: String)
    requires
        n <= s@.len(),
    ensures
        r@ == s@.skip(n as int),
{
    let len: usize = s.unicode_len();
    String::from_str(s.substring_char(n, len))
}

/// `a` followed by `b`.
pub fn join(a: &str, b: &str) -> (r: String)
    ensures
        r@ == a@ + b@,
{
    String::from_str(a).concat(b)
}

/// The characters of `s`, one by one.
pub fn to_chars(s: &str) -> (r: Vec<char>)
    ensures
        r@ == s@,
{
    let mut out: Vec<char> = Vec::new();
    for current in it: s.chars()
        invariant
            it.seq() == s@,
            out@ == s@.take(it.index() as int),
    {
        out.push(current);
        assert(s@.take(it.index() + 1) =~= s@.take(it.index() as int).push(current));
    }
    assert(s@.take(s@.len() as int) =~= s@);
    out
}

/// Whether `part` stands in `whole` from position `at` on.
fn stands_at(whole: &Vec<char>, part: &Vec<char>, at: usize) -> (r: bool)
    requires
        at + part@.len() <= whole@.len(),
    ensures
        r == (whole@.subrange(at as int, at + part@.len()) == part@),
{
    let n: usize = whole.len();
    let m: usize = part.len();
    let mut i: usize = 0;
    while i < m
        invariant
            n == whole@.len(),
            m == part@.len(),
            at + m <= n,
            i <= m,
            forall|j: int| 0 <= j < i ==> whole@[at + j] == part@[j],
        decreases m - i,
    {
        if whole[at + i] != part[i] {
            assert(whole@.subrange(at as int, at + m)[i as int] != part@[i as int]);
            return false;
        }
        i += 1;
    }
    assert(whole@.subrange(at as int, at + m) =~= part@);
    true
}

/// Whether `s` begins with `prefix`.
pub fn has_prefix(s: &str, prefix: &str) -> (r: bool)
    ensures
        r == prefix@.is_prefix_of(s@),
{
    let whole: Vec<char> = to_chars(s);
    let part: Vec<char> = to_chars(prefix);
    part.len() <= whole.len() && stands_at(&whole, &part, 0)
}

/// What follows `prefix` in `s`, where `s` begins with it.
pub fn strip_prefix(s: &str, prefix: &str) -> (r: Option<String>)
    ensures
        match r {
            Some(rest) => prefix@.is_prefix_of(s@) && rest@ == s@.skip(prefix@.len() as int),
            None => !prefix@.is_prefix_of(s@),
        },
{
    if has_prefix(s, prefix) {
        Some(skip_chars(s, prefix.unicode_len()))
    } else {
        None
    }
}

/// Whether `s` ends with `suffix`.
pub fn has_suffix(s: &str, suffix: &str) -> (r: bool)
    ensures
        r == suffix@.is_suffix_of(s@),
{
    let whole: Vec<char> = to_chars(s);
    let part: Vec<char> = to_chars(suffix);
    part.len() <= whole.len() && stands_at(&whole, &part, whole.len() - part.len())
}

} // verus!
