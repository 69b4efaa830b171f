//! The verified core of a language server for markdown documents linked by
//! `[[virtual/path|alias]]` wiki-links: the parser that finds the link under a cursor, the
//! cache policy for reference counts, the search pattern and output reading of the
//! reference search, document lookups, headings, hover previews and symbol queries.
use vstd::prelude::*;

pub mod cache;
pub mod files;
pub mod headings;
pub mod labels;
pub mod lines;
pub mod link;
pub mod preview;
pub mod query;
pub mod search;
pub mod text;

verus! {

} // verus!
