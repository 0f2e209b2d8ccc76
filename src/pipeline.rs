//! The query-to-results pipeline and the corpus queries around it.
use vstd::prelude::*;
use crate::models::{LawDocument, SearchResult};
use crate::ranking::{
    distances, embeddings_fit, is_ranking, query_flags, rank, reports,
    lemma_ranking_unique, result_indices, QueryFlags,
};
use crate::similarity::{MAX_DIMENSION, SCALE};
use crate::static_data::{child_keywords, user_penalty_request_keywords};
use crate::intent::names_view;
use crate::text::contains_any;

verus! {

/// The flags of a query text.
pub open spec fn flags_of(q: Seq<char>) -> QueryFlags {
    QueryFlags {
        wants_penalty: contains_any(q, user_penalty_request_keywords()),
        mentions_child: contains_any(q, child_keywords()),
    }
}

/// Ranks the corpus for `query`, whose embedding is `query_embedding`,
/// with the target statutes that intent resolution gave.
pub fn search(
    query: &str,
    query_embedding: &[i16],
    docs: &Vec<LawDocument>,
    target_laws: &Vec<String>,
) -> (r: Vec<SearchResult>)
    requires
        query_embedding@.len() <= MAX_DIMENSION,
        embeddings_fit(docs@),
    ensures
        is_search_result(query@, query_embedding@, docs@, target_laws@, r@),
{
    let flags = query_flags(query);
    rank(query_embedding, docs, &flags, target_laws)
}

/// Whether every embedding of `docs` has at most `MAX_DIMENSION` components.
pub fn corpus_fits(docs: &Vec<LawDocument>) -> (r: bool)
    ensures
        r == embeddings_fit(docs@),
{
    let mut i: usize = 0;
    while i < docs.len()
        invariant
            i <= docs@.len(),
            forall|k: int| 0 <= k < i ==> (#[trigger] docs@[k]).embedding@.len() <= MAX_DIMENSION,
        decreases docs.len() - i,
    {
        if docs[i].embedding.len() > MAX_DIMENSION {
            return false;
        }
        i = i + 1;
    }
    true
}

/// The articles of the statute `law`, in corpus order, each reported with
/// distance 0 and full relevance.
pub fn law_articles(docs: &Vec<LawDocument>, law: &String) -> (r: Vec<SearchResult>)
    ensures
        forall|p: int|
            0 <= p < r@.len() ==> {
                let x = #[trigger] r@[p];
                &&& x.doc_index < docs@.len()
                &&& docs@[x.doc_index as int].law_full_name@ == law@
                &&& x.document@ == docs@[x.doc_index as int].text@
                &&& x.distance == 0
                &&& x.relevance == SCALE
            },
        forall|p: int, q: int| 0 <= p < q < r@.len() ==> r@[p].doc_index < r@[q].doc_index,
        forall|i: int|
            0 <= i < docs@.len() && (#[trigger] docs@[i]).law_full_name@ == law@ ==> exists|p: int|
                0 <= p < r@.len() && r@[p].doc_index == i,
{
    let mut out: Vec<SearchResult> = Vec::new();
    let mut i: usize = 0;
    while i < docs.len()
        invariant
            i <= docs@.len(),
            forall|p: int|
                0 <= p < out@.len() ==> {
                    let x = #[trigger] out@[p];
                    &&& x.doc_index < i
                    &&& docs@[x.doc_index as int].law_full_name@ == law@
                    &&& x.document@ == docs@[x.doc_index as int].text@
                    &&& x.distance == 0
                    &&& x.relevance == SCALE
                },
            forall|p: int, q: int| 0 <= p < q < out@.len() ==> out@[p].doc_index < out@[q].doc_index,
            forall|k: int|
                0 <= k < i && (#[trigger] docs@[k]).law_full_name@ == law@ ==> exists|p: int|
                    0 <= p < out@.len() && out@[p].doc_index == k,
        decreases docs.len() - i,
    {
        if docs[i].law_full_name == *law {
            let ghost before = out@;
            out.push(
                SearchResult { doc_index: i, document: docs[i].text.clone(), distance: 0, relevance: SCALE },
            );
            proof {
                assert forall|k: int|
                    0 <= k <= i && (#[trigger] docs@[k]).law_full_name@ == law@ implies exists|p: int|
                        0 <= p < out@.len() && out@[p].doc_index == k by {
                    if k < i {
                        let p = choose|p: int| 0 <= p < before.len() && before[p].doc_index == k;
                        assert(out@[p] == before[p]);
                    } else {
                        assert(out@[before.len() as int].doc_index == k);
                    }
                }
            }
        }
        i = i + 1;
    }
    out
}

/// What `search` promises of its results for one set of inputs.
pub open spec fn is_search_result(
    query: Seq<char>,
    embedding: Seq<i16>,
    docs: Seq<LawDocument>,
    targets: Seq<String>,
    r: Seq<SearchResult>,
) -> bool {
    let d = distances(embedding, docs, flags_of(query), targets);
    &&& is_ranking(d, result_indices(r))
    &&& forall|p: int| 0 <= p < r.len() ==> reports(#[trigger] r[p], docs, d)
}

/// Searching twice with the same query, embedding, corpus and target
/// statutes gives the same results in the same order.
pub proof fn lemma_search_deterministic(
    query: Seq<char>,
    embedding: Seq<i16>,
    docs: Seq<LawDocument>,
    targets: Seq<String>,
    r1: Seq<SearchResult>,
    r2: Seq<SearchResult>,
)
    requires
        is_search_result(query, embedding, docs, targets, r1),
        is_search_result(query, embedding, docs, targets, r2),
    ensures
        r1.len() == r2.len(),
        forall|p: int|
            0 <= p < r1.len() ==> {
                &&& (#[trigger] r1[p]).doc_index == r2[p].doc_index
                &&& r1[p].document@ == r2[p].document@
                &&& r1[p].distance == r2[p].distance
                &&& r1[p].relevance == r2[p].relevance
            },
{
    let d = distances(embedding, docs, flags_of(query), targets);
    lemma_ranking_unique(d, result_indices(r1), result_indices(r2));
    assert forall|p: int| 0 <= p < r1.len() implies (#[trigger] r1[p]).doc_index == r2[p].doc_index by {
        assert(result_indices(r1)[p] == result_indices(r2)[p]);
    }
}

/// The statute name of each document, in corpus order.
pub open spec fn law_names_of(docs: Seq<LawDocument>) -> Seq<Seq<char>> {
    docs.map_values(|d: LawDocument| d.law_full_name@)
}

proof fn lemma_push_contains(s: Seq<Seq<char>>, e: Seq<char>, x: Seq<char>)
    ensures
        s.push(e).contains(x) <==> (s.contains(x) || x == e),
{
    if s.push(e).contains(x) && x != e {
        let p = choose|p: int| 0 <= p < s.push(e).len() && s.push(e)[p] == x;
        assert(s[p] == x);
    }
    if s.contains(x) {
        let p = choose|p: int| 0 <= p < s.len() && s[p] == x;
        assert(s.push(e)[p] == x);
    }
    if x == e {
        assert(s.push(e)[s.len() as int] == x);
    }
}

/// The distinct statute names of the corpus, each once.
pub fn distinct_law_names(docs: &Vec<LawDocument>) -> (r: Vec<String>)
    ensures
        names_view(r@).no_duplicates(),
        forall|x: Seq<char>|
            names_view(r@).contains(x) <==> law_names_of(docs@).contains(x),
{
    let ghost all = law_names_of(docs@);
    let mut out: Vec<String> = Vec::new();
    let mut i: usize = 0;
    while i < docs.len()
        invariant
            i <= docs@.len(),
            all == law_names_of(docs@),
            names_view(out@).no_duplicates(),
            forall|x: Seq<char>|
                names_view(out@).contains(x) <==> all.subrange(0, i as int).contains(x),
        decreases docs.len() - i,
    {
        let name = &docs[i].law_full_name;
        let mut seen = false;
        let mut j: usize = 0;
        while j < out.len()
            invariant
                j <= out@.len(),
                seen ==> names_view(out@).contains(name@),
                !seen ==> forall|p: int| 0 <= p < j ==> names_view(out@)[p] != name@,
            decreases out.len() - j,
        {
            if out[j] == *name {
                seen = true;
                assert(names_view(out@)[j as int] == name@);
            }
            j = j + 1;
        }
        let ghost before = names_view(out@);
        if !seen {
            out.push(name.clone());
            assert(names_view(out@) =~= before.push(name@));
        }
        proof {
            assert(all[i as int] == name@);
            assert(all.subrange(0, i + 1) =~= all.subrange(0, i as int).push(name@));
            assert forall|x: Seq<char>|
                names_view(out@).contains(x) <==> all.subrange(0, i + 1).contains(x) by {
                lemma_push_contains(all.subrange(0, i as int), name@, x);
                if !seen {
                    lemma_push_contains(before, name@, x);
                }
            }
        }
        i = i + 1;
    }
    assert(all.subrange(0, i as int) =~= all);
    out
}

} // verus!
