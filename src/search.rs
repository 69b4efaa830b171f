use vstd::prelude::*;

verus! {

/// How long a run of the search tool may take before it counts as failed, in milliseconds.
pub const SEARCH_TIMEOUT_MS: u64 = 30000;

/// Whether `c` has a meaning of its own in a regular expression.
pub open spec fn is_regex_meta(c: char) -> bool {
    c == '\\' || c == '.' || c == '+' || c == '*' || c == '?' || c == '(' || c == ')' || c
        == '|' || c == '[' || c == ']' || c == '{' || c == '}' || c == '^' || c == '$' || c
        == '#' || c == '&' || c == '-' || c == '~'
}

/// `s` with a backslash put before each regular-expression meta character.
pub open spec fn regex_escaped(s: Seq<char>) -> Seq<char>
    decreases s.len(),
{
    if s.len() == 0 {
        Seq::empty()
    } else if is_regex_meta(s[0]) {
        seq!['\\', s[0]] + regex_escaped(s.drop_first())
    } else {
        seq![s[0]] + regex_escaped(s.drop_first())
    }
}

/// The characters that `e` matches when each of its parts is read as a literal: a backslash
/// and the meta character after it stand for that character, and any other character that is
/// no meta character stands for itself. There is no such reading (`None`) where a meta
/// character stands bare or a backslash is not followed by one.
pub open spec fn literal_reading(e: Seq<char>) -> Option<Seq<char>>
    decreases e.len(),
{
    if e.len() == 0 {
        Some(Seq::empty())
    } else if e[0] == '\\' {
        if e.len() < 2 || !is_regex_meta(e[1]) {
            None
        } else {
            match literal_reading(e.subrange(2, e.len() as int)) {
                Some(rest) => Some(seq![e[1]] + rest),
                None => None,
            }
        }
    } else if is_regex_meta(e[0]) {
        None
    } else {
        match literal_reading(e.drop_first()) {
            Some(rest) => Some(seq![e[0]] + rest),
            None => None,
        }
    }
}

/// An escaped identifier holds no bare meta character: read as a regular expression, it
/// matches exactly the identifier's own characters, each taken literally.
pub proof fn lemma_escaped_reads_literally(s: Seq<char>)
    ensures
        literal_reading(regex_escaped(s)) == Some(s),
    decreases s.len(),
{
    if s.len() > 0 {
        lemma_escaped_reads_literally(s.drop_first());
        let rest = regex_escaped(s.drop_first());
        if is_regex_meta(s[0]) {
            let e = seq!['\\', s[0]] + rest;
            assert(e.subrange(2, e.len() as int) =~= rest);
        } else {
            let e = seq![s[0]] + rest;
            assert(e.drop_first() =~= rest);
        }
        assert(seq![s[0]] + s.drop_first() =~= s);
    }
}

/// Relies on `regex::escape`: each meta character of `s` is preceded by a backslash, and every
/// other character is kept as it is.
#[verifier::external_body]
fn escape_literal(s: &str) -> (r: String)
    ensures
        r@ == regex_escaped(s@),
{
    regex::escape(s)
}

/// The pattern that finds a link to `id`: `[[`, optional whitespace, `id` taken literally,
/// then `|` or `]]`.
pub open spec fn search_pattern_of(id: Seq<char>) -> Seq<char> {
    "\\[\\[\\s*"@ + regex_escaped(id) + "(\\||\\]\\])"@
}

/// The regular expression handed to the search tool to count the links to `id`.
pub fn search_pattern(id: &str) -> (r: String)
    ensures
        r@ == search_pattern_of(id@),
{
    let mut r = String::from_str("\\[\\[\\s*");
    let escaped = escape_literal(id);
    r.append(escaped.as_str());
    r.append("(\\||\\]\\])");
    r
}

/// The number of `\n` bytes in `b`.
pub open spec fn newline_count(b: Seq<u8>) -> nat
    decreases b.len(),
{
    if b.len() == 0 {
        0
    } else {
        newline_count(b.drop_last()) + if b.last() == 10u8 {
            1nat
        } else {
            0nat
        }
    }
}

/// The number of lines of `b`: one per `\n`, and one more for a last line without one.
pub open spec fn line_count(b: Seq<u8>) -> nat {
    newline_count(b) + if b.len() > 0 && b.last() != 10u8 {
        1nat
    } else {
        0nat
    }
}

/// Counts the lines of the search tool's output; each is one reference.
pub fn count_lines(out: &[u8]) -> (r: usize)
    ensures
        r == line_count(out@),
{
    let mut n: usize = 0;
    let mut i: usize = 0;
    while i < out.len()
        invariant
            i <= out@.len(),
            n == newline_count(out@.take(i as int)),
            n + (if i > 0 && out@[i - 1] != 10u8 {
                1int
            } else {
                0int
            }) <= i,
        decreases out@.len() - i,
    {
        assert(out@.take(i + 1).drop_last() =~= out@.take(i as int));
        if out[i] == 10u8 {
            n = n + 1;
        }
        i = i + 1;
    }
    assert(out@.take(i as int) =~= out@);
    if out.len() > 0 && out[out.len() - 1] != 10u8 {
        n = n + 1;
    }
    n
}

/// What a finished search run amounts to: its count when the tool exited with 0 (matches found)
/// or 1 (nothing matched), and no result for any other exit or a run that did not exit.
pub fn search_outcome(exit_code: Option<i32>, stdout: &[u8]) -> (r: Option<usize>)
    ensures
        r == (if exit_code == Some(0i32) || exit_code == Some(1i32) {
            Some(line_count(stdout@) as usize)
        } else {
            None
        }),
{
    match exit_code {
        Some(0i32) | Some(1i32) => Some(count_lines(stdout)),
        _ => None,
    }
}

} // verus!
