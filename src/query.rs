use vstd::prelude::*;

use crate::text::chars_of;

verus! {

/// `s` in lower case, as `str::to_lowercase` gives it.
pub uninterp spec fn lower_of(s: Seq<char>) -> Seq<char>;

/// Relies on `str::to_lowercase`: the lower-case form of `s`, which depends on its
/// characters alone.
#[verifier::external_body]
fn lowercase(s: &str) -> (r: String)
    ensures
        r@ == lower_of(s@),
{
    s.to_lowercase()
}

/// Whether `q` occurs in `s` as a contiguous run of characters.
pub open spec fn occurs_in(q: Seq<char>, s: Seq<char>) -> bool {
    exists|i: int| 0 <= i && i + q.len() <= s.len() && #[trigger] s.subrange(i, i + q.len()) == q
}

/// Whether the characters `q` occur in `s` at position `i`.
fn occurs_at(s: &Vec<char>, q: &Vec<char>, i: usize) -> (r: bool)
    requires
        i + q@.len() <= s@.len(),
    ensures
        r == (s@.subrange(i as int, i + q@.len()) == q@),
{
    let slen = s.len();
    let mut j: usize = 0;
    while j < q.len()
        invariant
            slen == s@.len(),
            i + q@.len() <= s@.len(),
            j <= q@.len(),
            s@.subrange(i as int, i + j) == q@.take(j as int),
        decreases q@.len() - j,
    {
        if s[i + j] != q[j] {
            assert(s@.subrange(i as int, i + q@.len())[j as int] != q@[j as int]);
            return false;
        }
        assert(s@.subrange(i as int, i + j + 1) =~= q@.take(j + 1));
        j = j + 1;
    }
    assert(q@.take(j as int) =~= q@);
    true
}

/// Whether `query` occurs in `name`; both are taken as already folded to lower case.
pub fn matches_folded(name: &str, query: &str) -> (r: bool)
    ensures
        r == occurs_in(query@, name@),
{
    let s = chars_of(name);
    let q = chars_of(query);
    if q.len() > s.len() {
        return false;
    }
    let last = s.len() - q.len();
    let mut i: usize = 0;
    loop
        invariant
            s@ == name@,
            q@ == query@,
            last == s@.len() - q@.len(),
            i <= last,
            forall|k: int| 0 <= k < i ==> #[trigger] s@.subrange(k, k + q@.len()) != q@,
        decreases last - i,
    {
        if occurs_at(&s, &q, i) {
            return true;
        }
        if i == last {
            return false;
        }
        i = i + 1;
    }
}

/// Whether a symbol named `name` answers a workspace query: every symbol answers an empty
/// query; otherwise the query must occur in the name, compared in lower case.
pub fn symbol_matches(name: &str, query: &str) -> (r: bool)
    ensures
        r == (query@.len() == 0 || occurs_in(lower_of(query@), lower_of(name@))),
{
    if query.is_empty() {
        return true;
    }
    let name_lower = lowercase(name);
    let query_lower = lowercase(query);
    matches_folded(name_lower.as_str(), query_lower.as_str())
}

} // verus!
