//! The corpus document and the ranked result, as plain values.
use vstd::prelude::*;

verus! {

/// One statute article of the corpus. `embedding` holds its quantised
/// embedding components.
pub struct LawDocument {
    pub id: String,
    pub text: String,
    pub law_full_name: String,
    pub article_number: String,
    pub embedding: Vec<i16>,
}

/// One ranked article: its position in the corpus, its text, its adjusted
/// distance and its relevance, both in millionths.
pub struct SearchResult {
    pub doc_index: usize,
    pub document: String,
    pub distance: i64,
    pub relevance: i64,
}

} // verus!
