//! Ranked search of statute articles for free-text legal queries.
//!
//! A query is resolved to the statutes it targets (alias table first, a
//! suggestion provider's reply otherwise), every article is scored by cosine
//! distance between embeddings and adjusted by fixed domain heuristics, and
//! the survivors under the discard threshold are returned best first.
use vstd::prelude::*;

pub mod guardrails;
pub mod intent;
pub mod models;
pub mod pipeline;
pub mod ranking;
pub mod similarity;
pub mod static_data;
pub mod text;

verus! {

} // verus!
