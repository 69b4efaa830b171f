use vstd::prelude::*;

use crate::text::{chars_of, substring, trim, trim_range};

verus! {

/// The start of the nearest `[[` that ends at or before position `k`, or -1 when there is none.
pub open spec fn last_open_before(s: Seq<char>, k: int) -> int
    decreases k,
{
    if k < 2 {
        -1
    } else if s[k - 2] == '[' && s[k - 1] == '[' {
        k - 2
    } else {
        last_open_before(s, k - 1)
    }
}

/// The start of the nearest `]]` that starts at or after position `i`, or -1 when there is none.
pub open spec fn first_close_from(s: Seq<char>, i: int) -> int
    decreases s.len() - i,
{
    if i < 0 || i + 2 > s.len() {
        -1
    } else if s[i] == ']' && s[i + 1] == ']' {
        i
    } else {
        first_close_from(s, i + 1)
    }
}

/// The first position in `i..hi` that holds `|`, or -1 when there is none.
pub open spec fn first_bar_in(s: Seq<char>, i: int, hi: int) -> int
    decreases hi - i,
{
    if i < 0 || i >= hi {
        -1
    } else if s[i] == '|' {
        i
    } else {
        first_bar_in(s, i + 1, hi)
    }
}

/// The link around cursor `col` of line `s`: the nearest `[[` before the cursor, closed by the
/// first `]]` after it, where that `]]` lies at or after the cursor (else the cursor is not
/// inside the link, and there is none). Gives the offsets of the `[[` and of the end of the
/// `]]`, the target (trimmed), and the alias (trimmed) where a `|` splits the content.
pub open spec fn link_at(s: Seq<char>, col: int) -> Option<(int, int, Seq<char>, Option<Seq<char>>)> {
    let start = last_open_before(s, col);
    let close = first_close_from(s, start + 2);
    if col < 0 || col > s.len() || start < 0 || close < 0 || close < col {
        None
    } else {
        let bar = first_bar_in(s, start + 2, close);
        if bar < 0 {
            Some((start, close + 2, trim(s.subrange(start + 2, close)), None))
        } else {
            Some(
                (
                    start,
                    close + 2,
                    trim(s.subrange(start + 2, bar)),
                    Some(trim(s.subrange(bar + 1, close))),
                ),
            )
        }
    }
}

/// The mathematical value of a parse result.
pub open spec fn token_view(r: Option<(usize, usize, String, Option<String>)>) -> Option<
    (int, int, Seq<char>, Option<Seq<char>>),
> {
    match r {
        None => None,
        Some(t) => Some(
            (
                t.0 as int,
                t.1 as int,
                t.2@,
                match t.3 {
                    None => None,
                    Some(a) => Some(a@),
                },
            ),
        ),
    }
}

/// Finds the wiki-link `[[target|alias]]` that encloses character offset `col` of `line`.
/// Returns the offset of its `[[`, the offset just past its `]]`, its target and its alias, each
/// trimmed of whitespace; the alias is everything after the first `|`. An empty target is
/// returned as such.
pub fn parse_wiki_link(line: &str, col: usize) -> (r: Option<(usize, usize, String, Option<String>)>)
    ensures
        token_view(r) == link_at(line@, col as int),
        r matches Some(t) ==> t.0 + 2 <= col && col + 2 <= t.1 && t.1 <= line@.len(),
        r matches Some(t) ==> first_close_from(line@, t.0 + 2) == t.1 - 2,
        r matches Some(t) ==> first_close_from(line@, col as int) == t.1 - 2,
{
    let cs = chars_of(line);
    if col > cs.len() {
        return None;
    }
    let mut k = col;
    while k >= 2 && !(cs[k - 2] == '[' && cs[k - 1] == '[')
        invariant
            k <= col <= cs@.len(),
            last_open_before(cs@, k as int) == last_open_before(cs@, col as int),
        decreases k,
    {
        k = k - 1;
    }
    if k < 2 {
        return None;
    }
    let start = k - 2;
    proof {
        lemma_last_open_bounds(cs@, col as int);
    }
    let mut j = start + 2;
    while j < cs.len() && j + 1 < cs.len() && !(cs[j] == ']' && cs[j + 1] == ']')
        invariant
            start + 2 <= j <= cs@.len(),
            first_close_from(cs@, j as int) == first_close_from(cs@, start + 2),
        decreases cs@.len() - j,
    {
        j = j + 1;
    }
    if j >= cs.len() || j + 1 >= cs.len() || j < col {
        return None;
    }
    let close = j;
    proof {
        lemma_first_close_skips(cs@, start + 2, col as int);
    }
    let mut b = start + 2;
    while b < close && cs[b] != '|'
        invariant
            start + 2 <= b <= close < cs@.len(),
            first_bar_in(cs@, b as int, close as int) == first_bar_in(
                cs@,
                start + 2,
                close as int,
            ),
        decreases close - b,
    {
        b = b + 1;
    }
    if b == close {
        let (lo, hi) = trim_range(&cs, start + 2, close);
        let target = substring(line, lo, hi);
        Some((start, close + 2, target, None))
    } else {
        let (lo, hi) = trim_range(&cs, start + 2, b);
        let target = substring(line, lo, hi);
        let (alo, ahi) = trim_range(&cs, b + 1, close);
        let alias = substring(line, alo, ahi);
        Some((start, close + 2, target, Some(alias)))
    }
}

} // verus!

verus! {

/// Parsing depends on the line and the cursor alone: equal lines give equal results at the
/// same cursor.
pub proof fn lemma_parse_deterministic(a: Seq<char>, b: Seq<char>, col: int)
    requires
        a == b,
    ensures
        link_at(a, col) == link_at(b, col),
{
}

/// A link that is found encloses the cursor: the cursor lies between its two markers, and no
/// `]]` stands between its `[[` and the cursor, so a cursor between two links finds neither.
pub proof fn lemma_link_contains_cursor(s: Seq<char>, col: int)
    ensures
        link_at(s, col) matches Some(t) ==> t.0 + 2 <= col && col + 2 <= t.1 <= s.len(),
        link_at(s, col) matches Some(t) ==> first_close_from(s, t.0 + 2) == t.1 - 2,
{
    if col >= 0 && col <= s.len() {
        lemma_last_open_bounds(s, col);
        lemma_first_close_bounds(s, last_open_before(s, col) + 2);
    }
}

proof fn lemma_last_open_bounds(s: Seq<char>, k: int)
    ensures
        last_open_before(s, k) >= 0 ==> last_open_before(s, k) + 2 <= k,
    decreases k,
{
    if k >= 2 {
        lemma_last_open_bounds(s, k - 1);
    }
}

proof fn lemma_first_close_skips(s: Seq<char>, i: int, k: int)
    requires
        0 <= i <= k,
        first_close_from(s, i) >= k,
    ensures
        first_close_from(s, k) == first_close_from(s, i),
    decreases k - i,
{
    if i < k {
        lemma_first_close_skips(s, i + 1, k);
    }
}

proof fn lemma_first_close_bounds(s: Seq<char>, i: int)
    ensures
        first_close_from(s, i) >= 0 ==> i <= first_close_from(s, i) && first_close_from(s, i)
            + 2 <= s.len(),
    decreases s.len() - i,
{
    if i >= 0 && i + 2 <= s.len() {
        lemma_first_close_bounds(s, i + 1);
    }
}

} // verus!
