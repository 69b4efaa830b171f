use vstd::prelude::*;

use crate::lines::{line_ranges, lines_of};
use crate::text::{chars_of, substring};

verus! {

/// How many lines of a document a hover preview shows.
pub const PREVIEW_LINES: usize = 20;

/// The column at which a hover preview is wrapped.
pub const PREVIEW_WIDTH: usize = 80;

/// `text` wrapped by textwrap's `fill` at `width` columns.
pub uninterp spec fn filled(text: Seq<char>, width: nat) -> Seq<char>;

/// Relies on `textwrap::fill`: `text` re-flowed into lines of at most `width` columns; the
/// result depends on `text` and `width` alone.
#[verifier::external_body]
fn fill_text(text: &str, width: usize) -> (r: String)
    ensures
        r@ == filled(text@, width as nat),
{
    textwrap::fill(text, width)
}

/// The lines joined with a `\n` between each two.
pub open spec fn joined(lines: Seq<Seq<char>>) -> Seq<char>
    decreases lines.len(),
{
    if lines.len() == 0 {
        Seq::empty()
    } else if lines.len() == 1 {
        lines[0]
    } else {
        joined(lines.drop_last()) + seq!['\n'] + lines.last()
    }
}

/// The first `PREVIEW_LINES` lines of `content`, joined by `\n`.
pub open spec fn preview_source_of(content: Seq<char>) -> Seq<char> {
    let ls = lines_of(content);
    joined(
        if ls.len() > PREVIEW_LINES {
            ls.take(PREVIEW_LINES as int)
        } else {
            ls
        },
    )
}

/// `text` as a fenced markdown block.
pub open spec fn fenced(text: Seq<char>) -> Seq<char> {
    "```markdown\n"@ + text + "\n```"@
}

/// The first `PREVIEW_LINES` lines of `content`, joined by `\n`.
pub fn preview_source(content: &str) -> (r: String)
    ensures
        r@ == preview_source_of(content@),
{
    let cs = chars_of(content);
    let ranges = line_ranges(&cs);
    let n = if ranges.len() > PREVIEW_LINES {
        PREVIEW_LINES
    } else {
        ranges.len()
    };
    let ghost ls = lines_of(cs@);
    let ghost kept = if ls.len() > PREVIEW_LINES {
        ls.take(PREVIEW_LINES as int)
    } else {
        ls
    };
    let mut out = String::new();
    let mut k: usize = 0;
    while k < n
        invariant
            cs@ == content@,
            ls == lines_of(cs@),
            n <= ranges@.len(),
            kept.len() == n,
            forall|j: int| 0 <= j < n ==> #[trigger] kept[j] == ls[j],
            ls == ranges@.map_values(|p: (usize, usize)| cs@.subrange(p.0 as int, p.1 as int)),
            forall|j: int|
                0 <= j < ranges@.len() ==> (#[trigger] ranges@[j]).0 <= ranges@[j].1 <= cs@.len(),
            k <= n,
            out@ == joined(kept.take(k as int)),
        decreases n - k,
    {
        let (lo, hi) = ranges[k];
        let piece = substring(content, lo, hi);
        assert(kept.take(k + 1).drop_last() =~= kept.take(k as int));
        if k > 0 {
            out.append("\n");
            proof {
                reveal_strlit("\n");
            }
        } else {
            assert(kept.take(1) =~= seq![kept[0]]);
        }
        out.append(piece.as_str());
        assert(out@ =~= joined(kept.take(k + 1)));
        k = k + 1;
    }
    assert(kept.take(n as int) =~= kept);
    out
}

/// `wrapped` as a fenced markdown block, as a hover shows it.
pub fn fenced_markdown(wrapped: &str) -> (r: String)
    ensures
        r@ == fenced(wrapped@),
{
    let mut r = String::from_str("```markdown\n");
    r.append(wrapped);
    r.append("\n```");
    r
}

/// The hover text for a document with contents `content`: its first lines, wrapped at
/// `PREVIEW_WIDTH` columns, as a fenced markdown block.
pub fn hover_preview_text(content: &str) -> (r: String)
    ensures
        r@ == fenced(filled(preview_source_of(content@), PREVIEW_WIDTH as nat)),
{
    let source = preview_source(content);
    let wrapped = fill_text(source.as_str(), PREVIEW_WIDTH);
    fenced_markdown(wrapped.as_str())
}

} // verus!
