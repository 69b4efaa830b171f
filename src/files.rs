use vstd::prelude::*;

use crate::link::{link_at, parse_wiki_link};
use crate::text::same_text;

verus! {

/// A document known to the workspace: the virtual path that links name it by, its title,
/// and where it lies on disk.
#[derive(Clone, Debug)]
pub struct FileInfo {
    pub virtual_path: String,
    pub title: String,
    pub path: String,
}

/// The first position in `infos` whose virtual path is `vp`, or -1 when there is none.
pub open spec fn first_with_virtual_path(infos: Seq<FileInfo>, vp: Seq<char>) -> int
    decreases infos.len(),
{
    if infos.len() == 0 {
        -1
    } else {
        let rest = first_with_virtual_path(infos.drop_first(), vp);
        if infos[0].virtual_path@ == vp {
            0
        } else if rest < 0 {
            -1
        } else {
            rest + 1
        }
    }
}

/// The first position in `infos` whose local path is `path`, or -1 when there is none.
pub open spec fn first_with_path(infos: Seq<FileInfo>, path: Seq<char>) -> int
    decreases infos.len(),
{
    if infos.len() == 0 {
        -1
    } else {
        let rest = first_with_path(infos.drop_first(), path);
        if infos[0].path@ == path {
            0
        } else if rest < 0 {
            -1
        } else {
            rest + 1
        }
    }
}

/// A position as an optional index: -1 stands for none.
pub open spec fn as_position(r: Option<usize>) -> int {
    match r {
        Some(i) => i as int,
        None => -1,
    }
}

proof fn lemma_first_with_virtual_path_step(infos: Seq<FileInfo>, vp: Seq<char>, i: int)
    requires
        0 <= i < infos.len(),
        forall|j: int| 0 <= j < i ==> infos[j].virtual_path@ != vp,
    ensures
        first_with_virtual_path(infos, vp) == if infos[i].virtual_path@ == vp {
            i
        } else {
            first_with_virtual_path(infos.subrange(i + 1, infos.len() as int), vp)
                + if first_with_virtual_path(infos.subrange(i + 1, infos.len() as int), vp) < 0 {
                0
            } else {
                i + 1
            }
        },
    decreases i,
{
    if i > 0 {
        lemma_first_with_virtual_path_step(infos.drop_first(), vp, i - 1);
        assert(infos.drop_first().subrange(i, infos.len() - 1) =~= infos.subrange(
            i + 1,
            infos.len() as int,
        ));
    } else {
        assert(infos.drop_first() =~= infos.subrange(1, infos.len() as int));
    }
}

proof fn lemma_first_with_path_step(infos: Seq<FileInfo>, path: Seq<char>, i: int)
    requires
        0 <= i < infos.len(),
        forall|j: int| 0 <= j < i ==> infos[j].path@ != path,
    ensures
        first_with_path(infos, path) == if infos[i].path@ == path {
            i
        } else {
            first_with_path(infos.subrange(i + 1, infos.len() as int), path)
                + if first_with_path(infos.subrange(i + 1, infos.len() as int), path) < 0 {
                0
            } else {
                i + 1
            }
        },
    decreases i,
{
    if i > 0 {
        lemma_first_with_path_step(infos.drop_first(), path, i - 1);
        assert(infos.drop_first().subrange(i, infos.len() - 1) =~= infos.subrange(
            i + 1,
            infos.len() as int,
        ));
    } else {
        assert(infos.drop_first() =~= infos.subrange(1, infos.len() as int));
    }
}

/// The first document whose virtual path is `virtual_path`.
pub fn find_by_virtual_path(infos: &Vec<FileInfo>, virtual_path: &str) -> (r: Option<usize>)
    ensures
        as_position(r) == first_with_virtual_path(infos@, virtual_path@),
{
    let mut i: usize = 0;
    while i < infos.len()
        invariant
            i <= infos@.len(),
            forall|j: int| 0 <= j < i ==> infos@[j].virtual_path@ != virtual_path@,
        decreases infos@.len() - i,
    {
        if same_text(infos[i].virtual_path.as_str(), virtual_path) {
            proof {
                lemma_first_with_virtual_path_step(infos@, virtual_path@, i as int);
            }
            return Some(i);
        }
        i = i + 1;
    }
    proof {
        if infos@.len() > 0 {
            lemma_first_with_virtual_path_step(infos@, virtual_path@, infos@.len() - 1);
            assert(infos@.subrange(infos@.len() as int, infos@.len() as int).len() == 0);
        }
    }
    None
}

/// The first document whose local path is `path`.
pub fn find_by_path(infos: &Vec<FileInfo>, path: &str) -> (r: Option<usize>)
    ensures
        as_position(r) == first_with_path(infos@, path@),
{
    let mut i: usize = 0;
    while i < infos.len()
        invariant
            i <= infos@.len(),
            forall|j: int| 0 <= j < i ==> infos@[j].path@ != path@,
        decreases infos@.len() - i,
    {
        if same_text(infos[i].path.as_str(), path) {
            proof {
                lemma_first_with_path_step(infos@, path@, i as int);
            }
            return Some(i);
        }
        i = i + 1;
    }
    proof {
        if infos@.len() > 0 {
            lemma_first_with_path_step(infos@, path@, infos@.len() - 1);
            assert(infos@.subrange(infos@.len() as int, infos@.len() as int).len() == 0);
        }
    }
    None
}

/// The document that the link under cursor `col` of `line` points to, if a link is there
/// (as `link_at` finds it) and a document has its target as virtual path.
pub fn link_target(line: &str, col: usize, infos: &Vec<FileInfo>) -> (r: Option<usize>)
    ensures
        as_position(r) == match link_at(line@, col as int) {
            None => -1,
            Some(t) => first_with_virtual_path(infos@, t.2),
        },
{
    match parse_wiki_link(line, col) {
        None => None,
        Some((_, _, target, _)) => find_by_virtual_path(infos, target.as_str()),
    }
}

/// The text a completion inserts for a document: `virtual_path|title`.
pub fn completion_insert_text(info: &FileInfo) -> (r: String)
    ensures
        r@ == info.virtual_path@ + "|"@ + info.title@,
{
    let mut r = info.virtual_path.clone();
    r.append("|");
    r.append(info.title.as_str());
    r
}

/// The label a completion shows for a document: `title (virtual_path)`.
pub fn completion_label(info: &FileInfo) -> (r: String)
    ensures
        r@ == info.title@ + " ("@ + info.virtual_path@ + ")"@,
{
    let mut r = info.title.clone();
    r.append(" (");
    r.append(info.virtual_path.as_str());
    r.append(")");
    r
}

/// The detail line a completion shows for a document.
pub fn completion_detail(info: &FileInfo) -> (r: String)
    ensures
        r@ == "Insert wiki-link for file: "@ + info.virtual_path@,
{
    let mut r = String::from_str("Insert wiki-link for file: ");
    r.append(info.virtual_path.as_str());
    r
}

} // verus!
