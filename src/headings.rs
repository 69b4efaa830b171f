use vstd::prelude::*;

use crate::lines::{line_ranges, lines_of};
use crate::text::{chars_of, substring, trim, trim_range, trim_start};

verus! {

/// `s` without its leading `#` characters.
pub open spec fn strip_hashes(s: Seq<char>) -> Seq<char>
    decreases s.len(),
{
    if s.len() > 0 && s[0] == '#' {
        strip_hashes(s.drop_first())
    } else {
        s
    }
}

/// The heading text of a line: where the trimmed line starts with `#`, what follows its
/// leading `#`s, trimmed.
pub open spec fn heading_text(line: Seq<char>) -> Option<Seq<char>> {
    let t = trim(line);
    if t.len() > 0 && t[0] == '#' {
        Some(trim(strip_hashes(t)))
    } else {
        None
    }
}

/// The non-empty headings among the first `n` lines, each with its line number.
pub open spec fn headings_in(lines: Seq<Seq<char>>, n: int) -> Seq<(int, Seq<char>)>
    decreases n,
{
    if n <= 0 {
        Seq::empty()
    } else {
        let prev = headings_in(lines, n - 1);
        match heading_text(lines[n - 1]) {
            Some(h) => if h.len() > 0 {
                prev.push((n - 1, h))
            } else {
                prev
            },
            None => prev,
        }
    }
}

/// The mathematical value of a list of numbered headings.
pub open spec fn numbered_view(v: Seq<(usize, String)>) -> Seq<(int, Seq<char>)> {
    v.map_values(|p: (usize, String)| (p.0 as int, p.1@))
}

/// The end of the run of `#` that starts at `lo`, within `lo..hi`.
fn skip_hashes(cs: &Vec<char>, lo: usize, hi: usize) -> (r: usize)
    requires
        lo <= hi <= cs@.len(),
    ensures
        lo <= r <= hi,
        cs@.subrange(r as int, hi as int) == strip_hashes(cs@.subrange(lo as int, hi as int)),
{
    let mut c = lo;
    while c < hi && cs[c] == '#'
        invariant
            lo <= c <= hi <= cs@.len(),
            strip_hashes(cs@.subrange(lo as int, hi as int)) == strip_hashes(
                cs@.subrange(c as int, hi as int),
            ),
        decreases hi - c,
    {
        assert(cs@.subrange(c as int, hi as int).drop_first() =~= cs@.subrange(
            c + 1,
            hi as int,
        ));
        c = c + 1;
    }
    c
}

/// The markdown headings of `content`: for each line whose trimmed text starts with `#`, its
/// line number and its text without the `#`s, trimmed; headings with no text are left out.
pub fn extract_headings(content: &str) -> (r: Vec<(usize, String)>)
    ensures
        numbered_view(r@) == headings_in(lines_of(content@), lines_of(content@).len() as int),
{
    let cs = chars_of(content);
    let ranges = line_ranges(&cs);
    let mut out: Vec<(usize, String)> = Vec::new();
    let mut k: usize = 0;
    while k < ranges.len()
        invariant
            cs@ == content@,
            k <= ranges@.len() == lines_of(cs@).len(),
            lines_of(cs@) == ranges@.map_values(
                |p: (usize, usize)| cs@.subrange(p.0 as int, p.1 as int),
            ),
            forall|j: int| 0 <= j < ranges@.len() ==> (#[trigger] ranges@[j]).0 <= ranges@[j].1 <= cs@.len(),
            numbered_view(out@) == headings_in(lines_of(cs@), k as int),
        decreases ranges@.len() - k,
    {
        let (lo, hi) = ranges[k];
        assert(lines_of(cs@)[k as int] == cs@.subrange(lo as int, hi as int));
        let (a, b) = trim_range(&cs, lo, hi);
        if a < b && cs[a] == '#' {
            let c = skip_hashes(&cs, a, b);
            let (p, q) = trim_range(&cs, c, b);
            if p < q {
                let text = substring(content, p, q);
                let ghost before = out@;
                out.push((k, text));
                assert(numbered_view(out@) =~= numbered_view(before).push(
                    (k as int, cs@.subrange(p as int, q as int)),
                ));
            }
        }
        k = k + 1;
    }
    out
}

/// A line of a document that starts, after leading whitespace, with `#`.
pub struct HeadingLine {
    /// Its line number.
    pub line: usize,
    /// What follows its leading `#`s, trimmed.
    pub name: String,
    /// The length of the whole line in bytes of UTF-8.
    pub width: usize,
}

/// The heading name of a line whose text, after leading whitespace, starts with `#`.
pub open spec fn symbol_name(line: Seq<char>) -> Option<Seq<char>> {
    let t = trim_start(line);
    if t.len() > 0 && t[0] == '#' {
        Some(trim(strip_hashes(t)))
    } else {
        None
    }
}

/// The heading lines among the first `n` lines, each with its number, name and byte width.
pub open spec fn symbols_in(lines: Seq<Seq<char>>, n: int) -> Seq<(int, Seq<char>, usize)>
    decreases n,
{
    if n <= 0 {
        Seq::empty()
    } else {
        let prev = symbols_in(lines, n - 1);
        match symbol_name(lines[n - 1]) {
            Some(h) => prev.push((n - 1, h, vstd::utf8::encode_utf8(lines[n - 1]).len() as usize)),
            None => prev,
        }
    }
}

/// The mathematical value of a list of heading lines.
pub open spec fn symbols_view(v: Seq<HeadingLine>) -> Seq<(int, Seq<char>, usize)> {
    v.map_values(|h: HeadingLine| (h.line as int, h.name@, h.width))
}

proof fn lemma_trim_start_is_suffix(s: Seq<char>)
    ensures
        trim_start(s).len() <= s.len(),
        trim_start(s) == s.subrange(s.len() - trim_start(s).len(), s.len() as int),
    decreases s.len(),
{
    if s.len() > 0 && crate::text::whitespace_char(s[0]) {
        lemma_trim_start_is_suffix(s.drop_first());
    }
}

/// The lines of `text` that are headings: after leading whitespace they start with `#`.
/// Each comes with its line number, its name (the rest after the `#`s, trimmed, possibly
/// empty) and the byte length of the whole line.
pub fn document_headings(text: &str) -> (r: Vec<HeadingLine>)
    ensures
        symbols_view(r@) == symbols_in(lines_of(text@), lines_of(text@).len() as int),
{
    let cs = chars_of(text);
    let ranges = line_ranges(&cs);
    let mut out: Vec<HeadingLine> = Vec::new();
    let mut k: usize = 0;
    while k < ranges.len()
        invariant
            cs@ == text@,
            k <= ranges@.len() == lines_of(cs@).len(),
            lines_of(cs@) == ranges@.map_values(
                |p: (usize, usize)| cs@.subrange(p.0 as int, p.1 as int),
            ),
            forall|j: int| 0 <= j < ranges@.len() ==> (#[trigger] ranges@[j]).0 <= ranges@[j].1 <= cs@.len(),
            symbols_view(out@) == symbols_in(lines_of(cs@), k as int),
        decreases ranges@.len() - k,
    {
        let (lo, hi) = ranges[k];
        assert(lines_of(cs@)[k as int] == cs@.subrange(lo as int, hi as int));
        let mut a = lo;
        while a < hi && crate::text::is_space(cs[a])
            invariant
                lo <= a <= hi <= cs@.len(),
                trim_start(cs@.subrange(lo as int, hi as int)) == trim_start(
                    cs@.subrange(a as int, hi as int),
                ),
            decreases hi - a,
        {
            assert(cs@.subrange(a as int, hi as int).drop_first() =~= cs@.subrange(
                a + 1,
                hi as int,
            ));
            a = a + 1;
        }
        if a < hi && cs[a] == '#' {
            let c = skip_hashes(&cs, a, hi);
            let (p, q) = trim_range(&cs, c, hi);
            let name = substring(text, p, q);
            let whole = substring(text, lo, hi);
            let width = whole.as_str().len();
            let ghost before = out@;
            proof {
                lemma_trim_start_is_suffix(cs@.subrange(lo as int, hi as int));
                assert(trim_start(cs@.subrange(lo as int, hi as int)) =~= cs@.subrange(a as int, hi as int));
            }
            assert(symbol_name(lines_of(cs@)[k as int]) == Some(cs@.subrange(p as int, q as int)));
            out.push(HeadingLine { line: k, name, width });
            assert(symbols_view(out@) =~= symbols_view(before).push(
                (k as int, cs@.subrange(p as int, q as int), width),
            ));
        } else {
            proof {
                lemma_trim_start_is_suffix(cs@.subrange(lo as int, hi as int));
                assert(trim_start(cs@.subrange(lo as int, hi as int)) =~= cs@.subrange(a as int, hi as int));
            }
            assert(symbol_name(lines_of(cs@)[k as int]) is None);
        }
        k = k + 1;
    }
    out
}

} // verus!
