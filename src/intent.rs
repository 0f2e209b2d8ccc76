//! Intent resolution: which statutes a query is about, from the alias table
//! first and from a suggestion provider's reply otherwise.
use vstd::prelude::*;
use vstd::string::StringSliceAdditionalSpecFns;
use crate::static_data::{alias_view, get_law_alias_map, law_aliases, LawAlias};
use crate::text::{contains_chars, push_char, seq_contains, to_chars};

verus! {

/// Where the target statutes of a query came from.
pub enum IntentSource {
    /// The alias that matched the query.
    StaticMatch(&'static str),
    /// The suggestion provider named them.
    AiSuggested,
    /// No intent was found.
    NoIntent,
}

/// The statutes a query targets (possibly none), and how they were found.
pub struct IntentResolution {
    pub target_laws: Vec<String>,
    pub source: IntentSource,
}

/// What a JSON text decodes to as an array of strings, if it is one.
pub uninterp spec fn json_string_list(s: Seq<char>) -> Option<Seq<Seq<char>>>;

/// The characters of each name.
pub open spec fn names_view(v: Seq<String>) -> Seq<Seq<char>> {
    v.map_values(|s: String| s@)
}

/// The characters of each name.
pub open spec fn strs_view(v: Seq<&str>) -> Seq<Seq<char>> {
    v.map_values(|s: &str| s@)
}

/// The alias table as plain values.
pub open spec fn table_view(t: Seq<LawAlias>) -> Seq<(&'static str, Seq<&'static str>)> {
    t.map_values(|a: LawAlias| alias_view(a))
}

/// Alias `i` of `t` occurs in the query `q`.
pub open spec fn alias_matches(q: Seq<char>, t: Seq<(&'static str, Seq<&'static str>)>, i: int) -> bool {
    0 <= i < t.len() && seq_contains(q, t[i].0@)
}

/// The length of an alias in UTF-8 bytes.
pub open spec fn byte_len(s: &str) -> nat {
    s.spec_bytes().len()
}

/// Alias `i` is the one honoured for `q`: it matches, no matching alias is
/// longer in bytes, and every earlier matching alias is shorter.
pub open spec fn is_longest_match(
    q: Seq<char>,
    t: Seq<(&'static str, Seq<&'static str>)>,
    i: int,
) -> bool {
    &&& alias_matches(q, t, i)
    &&& forall|j: int| #[trigger]
        alias_matches(q, t, j) ==> byte_len(t[j].0) <= byte_len(t[i].0)
    &&& forall|j: int| 0 <= j < i && #[trigger] alias_matches(q, t, j) ==> byte_len(t[j].0) < byte_len(t[i].0)
}

/// The honoured alias of `q`, where some alias matches.
pub open spec fn longest_match(q: Seq<char>, t: Seq<(&'static str, Seq<&'static str>)>) -> int {
    choose|i: int| is_longest_match(q, t, i)
}

/// At most one alias is honoured.
pub proof fn lemma_longest_match_unique(
    q: Seq<char>,
    t: Seq<(&'static str, Seq<&'static str>)>,
    i: int,
    j: int,
)
    requires
        is_longest_match(q, t, i),
        is_longest_match(q, t, j),
    ensures
        i == j,
{
    assert(alias_matches(q, t, i) && alias_matches(q, t, j));
}

/// The position of the honoured alias of `query` in `table`, if any matches.
pub fn longest_alias(query: &str, table: &Vec<LawAlias>) -> (r: Option<usize>)
    ensures
        match r {
            Some(i) => is_longest_match(query@, table_view(table@), i as int),
            None => forall|j: int| !alias_matches(query@, table_view(table@), j),
        },
{
    let ghost t = table_view(table@);
    let q = to_chars(query);
    let mut best: Option<usize> = None;
    let mut best_len: usize = 0;
    let mut i: usize = 0;
    while i < table.len()
        invariant
            t == table_view(table@),
            q@ == query@,
            i <= table@.len(),
            match best {
                Some(b) => b < i && best_len == byte_len(t[b as int].0) && alias_matches(q@, t, b as int)
                    && (forall|j: int| 0 <= j < i && #[trigger] alias_matches(q@, t, j)
                        ==> byte_len(t[j].0) <= best_len)
                    && (forall|j: int| 0 <= j < b && #[trigger] alias_matches(q@, t, j)
                        ==> byte_len(t[j].0) < best_len),
                None => forall|j: int| 0 <= j < i ==> !alias_matches(q@, t, j),
            },
        decreases table.len() - i,
    {
        let alias = to_chars(table[i].alias);
        let alias_len = table[i].alias.as_bytes().len();
        assert(t[i as int].0 == table@[i as int].alias);
        if contains_chars(&q, &alias) {
            let better = match best {
                Some(_) => alias_len > best_len,
                None => true,
            };
            if better {
                best = Some(i);
                best_len = alias_len;
            }
        }
        i = i + 1;
    }
    best
}

/// The target statutes of an alias, as owned names.
fn owned_names(laws: &Vec<&'static str>) -> (r: Vec<String>)
    ensures
        names_view(r@) == strs_view(laws@),
{
    let mut out: Vec<String> = Vec::new();
    let mut i: usize = 0;
    while i < laws.len()
        invariant
            i <= laws@.len(),
            out@.len() == i,
            forall|k: int| 0 <= k < i ==> (#[trigger] out@[k])@ == laws@[k]@,
        decreases laws.len() - i,
    {
        out.push(laws[i].to_owned());
        i = i + 1;
    }
    assert(names_view(out@) =~= strs_view(laws@));
    out
}

/// Resolves `query` against the alias table: the statutes of the longest
/// matching alias, or `None` where no alias occurs in the query.
pub fn resolve_static(query: &str) -> (r: Option<IntentResolution>)
    ensures
        r is None <==> forall|j: int| !alias_matches(query@, law_aliases(), j),
        r matches Some(res) ==> {
            let i = longest_match(query@, law_aliases());
            &&& is_longest_match(query@, law_aliases(), i)
            &&& res.source == IntentSource::StaticMatch(law_aliases()[i].0)
            &&& names_view(res.target_laws@) == strs_view(law_aliases()[i].1)
        },
{
    let table = get_law_alias_map();
    assert(table_view(table@) =~= law_aliases()) by {
        assert forall|k: int| 0 <= k < table@.len() implies table_view(table@)[k] == law_aliases()[k] by {
            assert(alias_view(table@[k]) == law_aliases()[k]);
        }
    }
    match longest_alias(query, &table) {
        Some(i) => {
            proof {
                lemma_longest_match_unique(
                    query@,
                    law_aliases(),
                    i as int,
                    longest_match(query@, law_aliases()),
                );
            }
            assert(alias_view(table@[i as int]) == law_aliases()[i as int]);
            let laws = owned_names(&table[i].laws);
            Some(IntentResolution { target_laws: laws, source: IntentSource::StaticMatch(table[i].alias) })
        },
        None => None,
    }
}

/// `i` is the first position of `c` in `t`.
pub open spec fn is_first(t: Seq<char>, c: char, i: int) -> bool {
    0 <= i < t.len() && t[i] == c && forall|j: int| 0 <= j < i ==> t[j] != c
}

/// `i` is the last position of `c` in `t`.
pub open spec fn is_last(t: Seq<char>, c: char, i: int) -> bool {
    0 <= i < t.len() && t[i] == c && forall|j: int| i < j < t.len() ==> t[j] != c
}

/// The text from the first `[` through the last `]`, where both occur in
/// that order.
pub open spec fn bracketed(t: Seq<char>) -> Option<Seq<char>> {
    if (exists|i: int| is_first(t, '[', i)) && (exists|j: int| is_last(t, ']', j)) {
        let i = choose|i: int| is_first(t, '[', i);
        let j = choose|j: int| is_last(t, ']', j);
        if i <= j {
            Some(t.subrange(i, j + 1))
        } else {
            None
        }
    } else {
        None
    }
}

/// The statutes a suggestion reply names: the bracketed part decoded as a
/// JSON array of strings, or none where that fails.
pub open spec fn suggested_names(t: Seq<char>) -> Seq<Seq<char>> {
    match bracketed(t) {
        Some(b) => match json_string_list(b) {
            Some(l) => l,
            None => Seq::empty(),
        },
        None => Seq::empty(),
    }
}

/// Relies on serde_json::from_str: decodes a JSON array of strings, or fails.
#[verifier::external_body]
fn decode_string_list(s: &str) -> (r: Option<Vec<String>>)
    ensures
        r is Some <==> json_string_list(s@) is Some,
        r matches Some(v) ==> names_view(v@) == json_string_list(s@)->0,
{
    serde_json::from_str::<Vec<String>>(s).ok()
}

/// The text between the first `[` and the last `]` of `text`, both
/// included, or `None` where there is no such pair.
pub fn extract_bracketed(text: &str) -> (r: Option<String>)
    ensures
        r is Some <==> bracketed(text@) is Some,
        r matches Some(s) ==> s@ == bracketed(text@)->0,
{
    let t = to_chars(text);
    let n: usize = t.len();
    let mut start: usize = 0;
    while start < n && t[start] != '['
        invariant
            n == t@.len(),
            start <= n,
            forall|j: int| 0 <= j < start ==> t@[j] != '[',
        decreases n - start,
    {
        start = start + 1;
    }
    if start == n {
        return None;
    }
    let mut end: usize = n;
    while end > 0 && t[end - 1] != ']'
        invariant
            n == t@.len(),
            end <= n,
            forall|j: int| end <= j < n ==> t@[j] != ']',
        decreases end,
    {
        end = end - 1;
    }
    if end == 0 {
        proof {
            assert forall|j: int| !is_last(t@, ']', j) by {
                if is_last(t@, ']', j) {
                    assert(t@[j] != ']');
                }
            }
        }
        return None;
    }
    let ghost i = choose|i: int| is_first(t@, '[', i);
    let ghost j = choose|j: int| is_last(t@, ']', j);
    assert(is_first(t@, '[', start as int));
    assert(is_last(t@, ']', end - 1));
    assert(i == start) by {
        if i < start {
            assert(t@[i] != '[');
        } else if i > start {
            assert(t@[start as int] != '[');
        }
    }
    assert(j == end - 1) by {
        if j < end - 1 {
            assert(t@[end - 1] != ']');
        } else if j > end - 1 {
            assert(t@[j] != ']');
        }
    }
    if start >= end {
        return None;
    }
    let mut out = String::new();
    let mut k: usize = start;
    while k < end
        invariant
            n == t@.len(),
            start <= k <= end <= n,
            out@ == t@.subrange(start as int, k as int),
        decreases end - k,
    {
        push_char(&mut out, t[k]);
        k = k + 1;
        assert(out@ =~= t@.subrange(start as int, k as int));
    }
    Some(out)
}

/// The statutes named by a suggestion provider's reply text.
pub fn parse_intent_reply(text: &str) -> (r: Vec<String>)
    ensures
        names_view(r@) == suggested_names(text@),
{
    match extract_bracketed(text) {
        Some(b) => match decode_string_list(b.as_str()) {
            Some(v) => v,
            None => {
                let empty: Vec<String> = Vec::new();
                assert(names_view(empty@) =~= Seq::<Seq<char>>::empty());
                empty
            },
        },
        None => {
            let empty: Vec<String> = Vec::new();
            assert(names_view(empty@) =~= Seq::<Seq<char>>::empty());
            empty
        },
    }
}

/// The resolution from the provider's suggestions: adopted where there is
/// at least one, otherwise no intent.
pub fn resolve_suggested(suggestions: Vec<String>) -> (r: IntentResolution)
    ensures
        suggestions@.len() > 0 ==> r.source == IntentSource::AiSuggested && r.target_laws@
            == suggestions@,
        suggestions@.len() == 0 ==> r.source == IntentSource::NoIntent && r.target_laws@.len() == 0,
{
    if suggestions.len() > 0 {
        IntentResolution { target_laws: suggestions, source: IntentSource::AiSuggested }
    } else {
        IntentResolution { target_laws: Vec::new(), source: IntentSource::NoIntent }
    }
}

/// The resolution where no provider reply is had: no intent.
pub fn no_intent() -> (r: IntentResolution)
    ensures
        r.source == IntentSource::NoIntent,
        r.target_laws@.len() == 0,
{
    IntentResolution { target_laws: Vec::new(), source: IntentSource::NoIntent }
}

/// The explanation prefix of a static alias match.
pub const STATIC_MATCH_PREFIX: &'static str = "Static Match: ";

/// The explanation of an intent the provider suggested.
pub const AI_SUGGESTED: &'static str = "AI Suggested";

/// `a` followed by `b`.
fn concat(a: &str, b: &str) -> (r: String)
    ensures
        r@ == a@ + b@,
{
    let mut out = a.to_owned();
    let tail = to_chars(b);
    let mut i: usize = 0;
    while i < tail.len()
        invariant
            i <= tail@.len(),
            tail@ == b@,
            out@ == a@ + b@.subrange(0, i as int),
        decreases tail.len() - i,
    {
        push_char(&mut out, tail[i]);
        i = i + 1;
        assert(out@ =~= a@ + b@.subrange(0, i as int));
    }
    assert(b@.subrange(0, i as int) =~= b@);
    out
}

/// The explanation reported with the results: which alias matched, that the
/// provider suggested the statutes, or none.
pub fn explanation(r: &IntentResolution) -> (e: Option<String>)
    ensures
        match r.source {
            IntentSource::StaticMatch(alias) => e matches Some(s) && s@ == STATIC_MATCH_PREFIX@
                + alias@,
            IntentSource::AiSuggested => e matches Some(s) && s@ == AI_SUGGESTED@,
            IntentSource::NoIntent => e is None,
        },
{
    match r.source {
        IntentSource::StaticMatch(alias) => Some(concat(STATIC_MATCH_PREFIX, alias)),
        IntentSource::AiSuggested => Some(AI_SUGGESTED.to_owned()),
        IntentSource::NoIntent => None,
    }
}

} // verus!
