//! Per-document scoring, heuristic adjustment, the target-law soft filter,
//! and the final sort, threshold and truncation.
use vstd::prelude::*;
use crate::models::{LawDocument, SearchResult};
use crate::similarity::{cosine_distance, cosine_similarity, MAX_DIMENSION, SCALE};
use crate::static_data::{
    boost_articles, child_keywords, get_boost_articles, get_child_keywords, get_penalty_keywords,
    get_user_penalty_request_keywords, penalty_keywords, user_penalty_request_keywords,
    CHILD_WELFARE_LAW, PURPOSE_MARKER,
};
use crate::text::{contains_any, contains_any_of, contains_chars, seq_contains, to_chars};

verus! {

/// Added to an article of the child-welfare statute when the query is not about children.
pub const CHILD_LAW_PENALTY: i64 = 150_000;

/// Added to a penal clause when the query does not ask about penalties.
pub const PENAL_CLAUSE_PENALTY: i64 = 250_000;

/// Taken from the distance of an introductory or definitional article.
pub const INTRODUCTORY_BOOST: i64 = 150_000;

/// Added to an article outside the targeted statutes.
pub const OFF_TARGET_PENALTY: i64 = 10_000_000;

/// Articles at or above this adjusted distance are discarded.
pub const DISCARD_THRESHOLD: i64 = 2_000_000;

/// The most results a query returns.
pub const MAX_RESULTS: usize = 15;

/// How many leading characters of an article are searched for the purpose marker.
pub const PURPOSE_WINDOW: usize = 50;

/// Facts about a query that the heuristics read.
pub struct QueryFlags {
    pub wants_penalty: bool,
    pub mentions_child: bool,
}

/// The first `n` characters of `s` (all of them if it is shorter).
pub open spec fn leading(s: Seq<char>, n: nat) -> Seq<char> {
    if s.len() <= n {
        s
    } else {
        s.subrange(0, n as int)
    }
}

/// An introductory or definitional article: its number holds a boost marker,
/// or its first characters hold the purpose marker.
pub open spec fn is_introductory(article_number: Seq<char>, text: Seq<char>) -> bool {
    contains_any(article_number, boost_articles()) || seq_contains(
        leading(text, PURPOSE_WINDOW as nat),
        PURPOSE_MARKER@,
    )
}

/// The sum of the three heuristic corrections for one article.
pub open spec fn heuristic_adjustment(
    law: Seq<char>,
    article_number: Seq<char>,
    text: Seq<char>,
    wants_penalty: bool,
    mentions_child: bool,
) -> int {
    (if law == CHILD_WELFARE_LAW@ && !mentions_child {
        CHILD_LAW_PENALTY as int
    } else {
        0
    }) + (if !wants_penalty && contains_any(text, penalty_keywords()) {
        PENAL_CLAUSE_PENALTY as int
    } else {
        0
    }) - (if is_introductory(article_number, text) {
        INTRODUCTORY_BOOST as int
    } else {
        0
    })
}

/// `law` is one of `targets`.
pub open spec fn names_contain(targets: Seq<String>, law: Seq<char>) -> bool {
    exists|i: int| 0 <= i < targets.len() && #[trigger] targets[i]@ == law
}

/// The soft filter: a large penalty for an article outside a non-empty target set.
pub open spec fn target_penalty(targets: Seq<String>, law: Seq<char>) -> int {
    if targets.len() > 0 && !names_contain(targets, law) {
        OFF_TARGET_PENALTY as int
    } else {
        0
    }
}

/// The adjusted distance of `doc` for a query with embedding `query` and
/// flags `flags`, given the target statutes.
pub open spec fn final_distance(
    query: Seq<i16>,
    doc: LawDocument,
    flags: QueryFlags,
    targets: Seq<String>,
) -> int {
    cosine_distance(query, doc.embedding@) + heuristic_adjustment(
        doc.law_full_name@,
        doc.article_number@,
        doc.text@,
        flags.wants_penalty,
        flags.mentions_child,
    ) + target_penalty(targets, doc.law_full_name@)
}

/// The relevance shown for a distance: `SCALE - d` up to `SCALE`, else 0.
pub open spec fn relevance_of(d: int) -> int {
    if d > SCALE {
        0
    } else {
        SCALE - d
    }
}

/// The flags of a query: whether it asks about penalties, and whether it is
/// about children.
pub fn query_flags(query: &str) -> (r: QueryFlags)
    ensures
        r.wants_penalty == contains_any(query@, user_penalty_request_keywords()),
        r.mentions_child == contains_any(query@, child_keywords()),
{
    let q = to_chars(query);
    let wants_penalty = contains_any_of(&q, &get_user_penalty_request_keywords());
    let mentions_child = contains_any_of(&q, &get_child_keywords());
    QueryFlags { wants_penalty, mentions_child }
}

/// The first `n` characters of `v`.
fn take_leading(v: &Vec<char>, n: usize) -> (r: Vec<char>)
    ensures
        r@ == leading(v@, n as nat),
{
    let mut out: Vec<char> = Vec::new();
    let mut i: usize = 0;
    while i < n && i < v.len()
        invariant
            i <= v@.len(),
            i <= n,
            out@ == v@.subrange(0, i as int),
        decreases n - i,
    {
        out.push(v[i]);
        i = i + 1;
        assert(out@ =~= v@.subrange(0, i as int));
    }
    assert(out@ =~= leading(v@, n as nat));
    out
}

/// Whether an article is introductory or definitional.
pub fn introductory(article_number: &str, text: &str) -> (r: bool)
    ensures
        r == is_introductory(article_number@, text@),
{
    let number = to_chars(article_number);
    if contains_any_of(&number, &get_boost_articles()) {
        return true;
    }
    let head = take_leading(&to_chars(text), PURPOSE_WINDOW);
    contains_chars(&head, &to_chars(PURPOSE_MARKER))
}

/// `base` with the heuristic corrections for `doc` applied.
pub fn adjust(base: i64, doc: &LawDocument, flags: &QueryFlags) -> (r: i64)
    requires
        i64::MIN + INTRODUCTORY_BOOST <= base <= i64::MAX - CHILD_LAW_PENALTY - PENAL_CLAUSE_PENALTY,
    ensures
        r == base + heuristic_adjustment(
            doc.law_full_name@,
            doc.article_number@,
            doc.text@,
            flags.wants_penalty,
            flags.mentions_child,
        ),
{
    let mut dist = base;
    let child_law = CHILD_WELFARE_LAW.to_owned();
    if doc.law_full_name == child_law && !flags.mentions_child {
        dist = dist + CHILD_LAW_PENALTY;
    }
    if !flags.wants_penalty && contains_any_of(&to_chars(&doc.text), &get_penalty_keywords()) {
        dist = dist + PENAL_CLAUSE_PENALTY;
    }
    if introductory(&doc.article_number, &doc.text) {
        dist = dist - INTRODUCTORY_BOOST;
    }
    dist
}

/// Whether `law` is one of `targets`.
pub fn is_target(targets: &Vec<String>, law: &String) -> (r: bool)
    ensures
        r == names_contain(targets@, law@),
{
    let mut i: usize = 0;
    while i < targets.len()
        invariant
            i <= targets@.len(),
            forall|j: int| 0 <= j < i ==> targets@[j]@ != law@,
        decreases targets.len() - i,
    {
        if targets[i] == *law {
            return true;
        }
        i = i + 1;
    }
    false
}

/// The adjusted distance of one document.
pub fn score_document(
    query: &[i16],
    doc: &LawDocument,
    flags: &QueryFlags,
    targets: &Vec<String>,
) -> (r: i64)
    requires
        query@.len() <= MAX_DIMENSION,
        doc.embedding@.len() <= MAX_DIMENSION,
    ensures
        r == final_distance(query@, *doc, *flags, targets@),
        r >= -INTRODUCTORY_BOOST,
{
    let sim = cosine_similarity(query, doc.embedding.as_slice());
    let base = SCALE - sim;
    let mut dist = adjust(base, doc, flags);
    if targets.len() > 0 && !is_target(targets, &doc.law_full_name) {
        dist = dist + OFF_TARGET_PENALTY;
    }
    dist
}

/// The relevance shown for a distance.
pub fn relevance(d: i64) -> (r: i64)
    requires
        d >= SCALE - i64::MAX,
    ensures
        r == relevance_of(d as int),
{
    if d > SCALE {
        0
    } else {
        SCALE - d
    }
}

/// Document `i` ranks before document `j`: a smaller distance, or an equal
/// one and an earlier place in the corpus.
pub open spec fn ranks_before(d: Seq<i64>, i: int, j: int) -> bool {
    d[i] < d[j] || (d[i] == d[j] && i < j)
}

/// Document `i` exists and is under the discard threshold.
pub open spec fn survives(d: Seq<i64>, i: int) -> bool {
    0 <= i < d.len() && d[i] < DISCARD_THRESHOLD
}

/// `r` lists surviving documents in rank order, each before the next.
pub open spec fn in_rank_order(d: Seq<i64>, r: Seq<usize>) -> bool {
    &&& forall|p: int| 0 <= p < r.len() ==> survives(d, #[trigger] r[p] as int)
    &&& forall|p: int, q: int|
        0 <= p < q < r.len() ==> ranks_before(d, #[trigger] r[p] as int, #[trigger] r[q] as int)
}

/// `r` is the ranking of the documents with distances `d`: the surviving
/// documents sorted by distance (ties in corpus order), cut to `MAX_RESULTS`.
pub open spec fn is_ranking(d: Seq<i64>, r: Seq<usize>) -> bool {
    &&& r.len() <= MAX_RESULTS
    &&& in_rank_order(d, r)
    &&& forall|i: int, p: int|
        #![trigger ranks_before(d, i, r[p] as int)]
        survives(d, i) && 0 <= p < r.len() && ranks_before(d, i, r[p] as int) ==> r.contains(
            i as usize,
        )
    &&& r.len() < MAX_RESULTS ==> forall|i: int| survives(d, i) ==> r.contains(i as usize)
}

/// The indices of the documents to return, best first.
pub fn select_ranked(d: &Vec<i64>) -> (r: Vec<usize>)
    ensures
        is_ranking(d@, r@),
{
    let n: usize = d.len();
    let mut out: Vec<usize> = Vec::new();
    let mut done = false;
    while out.len() < MAX_RESULTS && !done
        invariant
            n == d@.len(),
            out@.len() <= MAX_RESULTS,
            in_rank_order(d@, out@),
            out@.len() > 0 ==> forall|i: int|
                survives(d@, i) && (ranks_before(d@, i, out@.last() as int) || i == out@.last())
                    ==> out@.contains(i as usize),
            done ==> forall|i: int| survives(d@, i) ==> out@.contains(i as usize),
        decreases MAX_RESULTS - out@.len(), if done { 0int } else { 1int },
    {
        let mut best: usize = n;
        let mut j: usize = 0;
        while j < n
            invariant
                n == d@.len(),
                j <= n,
                out@.len() <= MAX_RESULTS,
                in_rank_order(d@, out@),
                best == n || (best < j && survives(d@, best as int) && (out@.len() == 0
                    || ranks_before(d@, out@.last() as int, best as int))),
                forall|k: int|
                    0 <= k < j && survives(d@, k) && (out@.len() == 0 || ranks_before(
                        d@,
                        out@.last() as int,
                        k,
                    )) ==> best < n && (k == best || ranks_before(d@, best as int, k)),
            decreases n - j,
        {
            if d[j] < DISCARD_THRESHOLD {
                let after_last = out.len() == 0 || {
                    let last = out[out.len() - 1];
                    assert(survives(d@, out@[out@.len() - 1] as int));
                    d[last] < d[j] || (d[last] == d[j] && last < j)
                };
                if after_last && (best == n || d[j] < d[best]) {
                    best = j;
                }
            }
            j = j + 1;
        }
        if best == n {
            done = true;
            proof {
                assert forall|i: int| survives(d@, i) implies out@.contains(i as usize) by {
                    if out@.len() > 0 {
                        if !ranks_before(d@, i, out@.last() as int) && i != out@.last() {
                            assert(ranks_before(d@, out@.last() as int, i));
                        }
                    }
                }
            }
        } else {
            let ghost old_out = out@;
            out.push(best);
            proof {
                assert(out@.last() == best);
                assert forall|p: int| 0 <= p < out@.len() implies survives(d@, #[trigger] out@[p] as int) by {
                    if p < old_out.len() {
                        assert(out@[p] == old_out[p]);
                    }
                }
                assert forall|p: int, q: int| 0 <= p < q < out@.len() implies ranks_before(
                    d@,
                    #[trigger] out@[p] as int,
                    #[trigger] out@[q] as int,
                ) by {
                    if q == out@.len() - 1 && p < old_out.len() - 1 {
                        assert(ranks_before(d@, old_out[p] as int, old_out.last() as int));
                    }
                }
                assert forall|i: int|
                    survives(d@, i) && (ranks_before(d@, i, out@.last() as int) || i == out@.last())
                        implies out@.contains(i as usize) by {
                    if i == best {
                        assert(out@[old_out.len() as int] == best);
                    } else if old_out.len() > 0 && (ranks_before(d@, i, old_out.last() as int)
                        || i == old_out.last()) {
                        let w = choose|w: int| 0 <= w < old_out.len() && old_out[w] == i as usize;
                        assert(out@[w] == i as usize);
                    } else {
                        assert(ranks_before(d@, best as int, i));
                    }
                }
            }
        }
    }
    proof {
        assert forall|i: int, p: int|
            #![trigger ranks_before(d@, i, out@[p] as int)]
            survives(d@, i) && 0 <= p < out@.len() && ranks_before(d@, i, out@[p] as int)
                implies out@.contains(i as usize) by {
            if p < out@.len() - 1 {
                assert(ranks_before(d@, out@[p] as int, out@.last() as int));
            }
        }
    }
    out
}

/// The adjusted distance of every document of `docs`, in corpus order.
pub open spec fn distances(
    query: Seq<i16>,
    docs: Seq<LawDocument>,
    flags: QueryFlags,
    targets: Seq<String>,
) -> Seq<i64> {
    Seq::new(docs.len(), |i: int| final_distance(query, docs[i], flags, targets) as i64)
}

/// The corpus positions of the results, in order.
pub open spec fn result_indices(r: Seq<SearchResult>) -> Seq<usize> {
    r.map_values(|x: SearchResult| x.doc_index)
}

/// `x` reports document `docs[x.doc_index]` with its adjusted distance `d`.
pub open spec fn reports(x: SearchResult, docs: Seq<LawDocument>, d: Seq<i64>) -> bool {
    &&& x.doc_index < docs.len()
    &&& x.document@ == docs[x.doc_index as int].text@
    &&& x.distance == d[x.doc_index as int]
    &&& x.relevance == relevance_of(x.distance as int)
}

/// Every embedding of `docs` has at most `MAX_DIMENSION` components.
pub open spec fn embeddings_fit(docs: Seq<LawDocument>) -> bool {
    forall|i: int| 0 <= i < docs.len() ==> (#[trigger] docs[i]).embedding@.len() <= MAX_DIMENSION
}

/// Scores every document, ranks them, and reports the top results.
pub fn rank(
    query: &[i16],
    docs: &Vec<LawDocument>,
    flags: &QueryFlags,
    targets: &Vec<String>,
) -> (r: Vec<SearchResult>)
    requires
        query@.len() <= MAX_DIMENSION,
        embeddings_fit(docs@),
    ensures
        is_ranking(distances(query@, docs@, *flags, targets@), result_indices(r@)),
        forall|p: int|
            0 <= p < r@.len() ==> reports(
                #[trigger] r@[p],
                docs@,
                distances(query@, docs@, *flags, targets@),
            ),
{
    let ghost dist = distances(query@, docs@, *flags, targets@);
    let mut d: Vec<i64> = Vec::new();
    let mut i: usize = 0;
    while i < docs.len()
        invariant
            query@.len() <= MAX_DIMENSION,
            embeddings_fit(docs@),
            i <= docs@.len(),
            d@.len() == i,
            dist == distances(query@, docs@, *flags, targets@),
            forall|k: int| 0 <= k < i ==> d@[k] == dist[k] && d@[k] >= -INTRODUCTORY_BOOST,
        decreases docs.len() - i,
    {
        let x = score_document(query, &docs[i], flags, targets);
        d.push(x);
        i = i + 1;
    }
    assert(d@ =~= dist);
    let picked = select_ranked(&d);
    let mut out: Vec<SearchResult> = Vec::new();
    let mut p: usize = 0;
    while p < picked.len()
        invariant
            d@ == dist,
            dist.len() == docs@.len(),
            forall|k: int| 0 <= k < dist.len() ==> dist[k] >= -INTRODUCTORY_BOOST,
            is_ranking(dist, picked@),
            p <= picked@.len(),
            out@.len() == p,
            forall|t: int| 0 <= t < p ==> (#[trigger] out@[t]).doc_index == picked@[t],
            forall|t: int| 0 <= t < out@.len() ==> reports(#[trigger] out@[t], docs@, dist),
        decreases picked.len() - p,
    {
        let k = picked[p];
        assert(survives(dist, picked@[p as int] as int));
        let dk = d[k];
        let x = SearchResult {
            doc_index: k,
            document: docs[k].text.clone(),
            distance: dk,
            relevance: relevance(dk),
        };
        let ghost before = out@;
        out.push(x);
        p = p + 1;
        assert(out@ == before.push(x));
    }
    assert(result_indices(out@) =~= picked@);
    out
}

/// The target-law soft filter only ever adds distance: an article scores at
/// least as far with a target set as with none.
pub proof fn lemma_soft_filter_monotone(
    query: Seq<i16>,
    doc: LawDocument,
    flags: QueryFlags,
    targets: Seq<String>,
)
    ensures
        final_distance(query, doc, flags, targets) >= final_distance(query, doc, flags, Seq::empty()),
        target_penalty(targets, doc.law_full_name@) >= 0,
{
}

/// An article of the child-welfare statute scores exactly
/// `CHILD_LAW_PENALTY` further for a query without a child keyword than for
/// one with a child keyword, all else equal.
pub proof fn lemma_child_suppression(
    query: Seq<i16>,
    doc: LawDocument,
    wants_penalty: bool,
    targets: Seq<String>,
)
    requires
        doc.law_full_name@ == CHILD_WELFARE_LAW@,
    ensures
        final_distance(query, doc, QueryFlags { wants_penalty, mentions_child: false }, targets)
            == final_distance(query, doc, QueryFlags { wants_penalty, mentions_child: true }, targets)
            + CHILD_LAW_PENALTY,
{
}

proof fn lemma_prefixes_agree(d: Seq<i64>, r1: Seq<usize>, r2: Seq<usize>, k: int)
    requires
        is_ranking(d, r1),
        is_ranking(d, r2),
        0 <= k <= r1.len(),
        k <= r2.len(),
    ensures
        forall|p: int| 0 <= p < k ==> r1[p] == r2[p],
    decreases k,
{
    if k > 0 {
        lemma_prefixes_agree(d, r1, r2, k - 1);
        let p = k - 1;
        let x = r1[p] as int;
        let y = r2[p] as int;
        assert(survives(d, x) && survives(d, y));
        if x != y {
            if ranks_before(d, x, y) {
                assert(r2.contains(x as usize));
                let q = choose|q: int| 0 <= q < r2.len() && r2[q] == x as usize;
                if q < p {
                    assert(r1[q] == r2[q]);
                    assert(ranks_before(d, r1[q] as int, r1[p] as int));
                } else if q > p {
                    assert(ranks_before(d, r2[p] as int, r2[q] as int));
                }
            } else {
                assert(ranks_before(d, y, x));
                assert(r1.contains(y as usize));
                let q = choose|q: int| 0 <= q < r1.len() && r1[q] == y as usize;
                if q < p {
                    assert(r1[q] == r2[q]);
                    assert(ranks_before(d, r2[q] as int, r2[p] as int));
                } else if q > p {
                    assert(ranks_before(d, r1[p] as int, r1[q] as int));
                }
            }
        }
    }
}

proof fn lemma_no_longer(d: Seq<i64>, r1: Seq<usize>, r2: Seq<usize>)
    requires
        is_ranking(d, r1),
        is_ranking(d, r2),
        r1.len() <= r2.len(),
    ensures
        r1.len() == r2.len(),
{
    if r1.len() < r2.len() {
        lemma_prefixes_agree(d, r1, r2, r1.len() as int);
        let n = r1.len() as int;
        let y = r2[n] as int;
        assert(survives(d, y));
        assert(r1.contains(y as usize));
        let q = choose|q: int| 0 <= q < r1.len() && r1[q] == y as usize;
        assert(r1[q] == r2[q]);
        assert(ranks_before(d, r2[q] as int, r2[n] as int));
    }
}

/// There is one ranking of a given set of distances, so ranking is a
/// function of its inputs: the same distances always give the same order.
pub proof fn lemma_ranking_unique(d: Seq<i64>, r1: Seq<usize>, r2: Seq<usize>)
    requires
        is_ranking(d, r1),
        is_ranking(d, r2),
    ensures
        r1 == r2,
{
    if r1.len() <= r2.len() {
        lemma_no_longer(d, r1, r2);
    } else {
        lemma_no_longer(d, r2, r1);
    }
    lemma_prefixes_agree(d, r1, r2, r1.len() as int);
    assert(r1 =~= r2);
}

} // verus!
