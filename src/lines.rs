use vstd::prelude::*;

use crate::text::{chars_of, substring};

verus! {

/// The lines of `s[start..]` read from position `i` on, where the current line began at
/// `start`: a line ends at `\n`, which it loses together with a `\r` just before it; a last
/// line without `\n` is kept as it is, and an empty one is no line.
pub open spec fn lines_from(s: Seq<char>, i: int, start: int) -> Seq<Seq<char>>
    decreases s.len() - i,
{
    if i < 0 || i >= s.len() {
        if 0 <= start < s.len() {
            seq![s.subrange(start, s.len() as int)]
        } else {
            Seq::empty()
        }
    } else if s[i] == '\n' {
        seq![line_body(s, start, i)] + lines_from(s, i + 1, i + 1)
    } else {
        lines_from(s, i + 1, start)
    }
}

/// The characters `start..end` of `s`, less a `\r` at their end.
pub open spec fn line_body(s: Seq<char>, start: int, end: int) -> Seq<char> {
    if start < end && s[end - 1] == '\r' {
        s.subrange(start, end - 1)
    } else {
        s.subrange(start, end)
    }
}

/// The lines of `s`, as `str::lines` splits them.
pub open spec fn lines_of(s: Seq<char>) -> Seq<Seq<char>> {
    lines_from(s, 0, 0)
}

/// The bounds of each line of `cs`, in order: line `k` is `cs[r[k].0..r[k].1]`.
pub fn line_ranges(cs: &Vec<char>) -> (r: Vec<(usize, usize)>)
    ensures
        lines_of(cs@) == r@.map_values(|p: (usize, usize)| cs@.subrange(p.0 as int, p.1 as int)),
        forall|k: int| 0 <= k < r@.len() ==> (#[trigger] r@[k]).0 <= r@[k].1 <= cs@.len(),
{
    let mut r: Vec<(usize, usize)> = Vec::new();
    let mut start: usize = 0;
    let mut i: usize = 0;
    while i < cs.len()
        invariant
            start <= i <= cs@.len(),
            forall|k: int| 0 <= k < r@.len() ==> (#[trigger] r@[k]).0 <= r@[k].1 <= cs@.len(),
            lines_of(cs@) == r@.map_values(
                |p: (usize, usize)| cs@.subrange(p.0 as int, p.1 as int),
            ) + lines_from(cs@, i as int, start as int),
        decreases cs@.len() - i,
    {
        if cs[i] == '\n' {
            let end = if start < i && cs[i - 1] == '\r' {
                i - 1
            } else {
                i
            };
            let ghost before = r@;
            r.push((start, end));
            assert(r@.map_values(|p: (usize, usize)| cs@.subrange(p.0 as int, p.1 as int))
                =~= before.map_values(|p: (usize, usize)| cs@.subrange(p.0 as int, p.1 as int))
                + seq![line_body(cs@, start as int, i as int)]);
            start = i + 1;
        }
        i = i + 1;
    }
    if start < cs.len() {
        let ghost before = r@;
        r.push((start, cs.len()));
        assert(r@.map_values(|p: (usize, usize)| cs@.subrange(p.0 as int, p.1 as int))
            =~= before.map_values(|p: (usize, usize)| cs@.subrange(p.0 as int, p.1 as int))
            + seq![cs@.subrange(start as int, cs@.len() as int)]);
    } else {
        assert(r@.map_values(|p: (usize, usize)| cs@.subrange(p.0 as int, p.1 as int))
            =~= r@.map_values(|p: (usize, usize)| cs@.subrange(p.0 as int, p.1 as int))
            + Seq::<Seq<char>>::empty());
    }
    assert(lines_of(cs@) == r@.map_values(
        |p: (usize, usize)| cs@.subrange(p.0 as int, p.1 as int),
    ));
    r
}

/// Line `n` of `text`, counted from 0, if `text` has that many lines.
pub fn line_at(text: &str, n: usize) -> (r: Option<String>)
    ensures
        match r {
            Some(l) => n < lines_of(text@).len() && l@ == lines_of(text@)[n as int],
            None => n >= lines_of(text@).len(),
        },
{
    let cs = chars_of(text);
    let ranges = line_ranges(&cs);
    if n >= ranges.len() {
        return None;
    }
    let (lo, hi) = ranges[n];
    assert(ranges@[n as int].0 <= ranges@[n as int].1 <= cs@.len());
    Some(substring(text, lo, hi))
}

} // verus!
