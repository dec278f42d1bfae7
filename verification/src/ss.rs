//! Bindings for the Semantic Scholar API.
use crate::text::{concat, push_str};
use vstd::prelude::*;

verus! {

/// The API address of a paper's abstract on Semantic Scholar.
pub open spec fn paper_url_spec(doi: Seq<char>) -> Seq<char> {
    "https://api.semanticscholar.org/graph/v1/paper/DOI:"@ + doi + "?fields=abstract"@
}

/// The API address of a paper's abstract on Semantic Scholar.
pub fn paper_url(doi: &str) -> (res: String)
    ensures
        res@ == paper_url_spec(doi@),
{
    let mut s = concat("https://api.semanticscholar.org/graph/v1/paper/DOI:", doi);
    push_str(&mut s, "?fields=abstract");
    s
}

/// A paper as Semantic Scholar describes it.
pub struct Paper {
    pub paper_id: String,
    pub title: String,
    pub authors: Vec<Author>,
    pub abstract_: Option<String>,
}

pub struct Author {
    pub author_id: String,
    pub name: String,
}

} // verus!
