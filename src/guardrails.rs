//! The input guardrail: rejects over-long queries and queries that look like
//! prompt or script injection.
use vstd::prelude::*;
use crate::text::to_chars;

verus! {

/// The longest query accepted, in characters.
pub const MAX_INPUT_CHARS: usize = 1000;

/// The reason given for an over-long query.
pub const TOO_LONG_REASON: &'static str = "Input too long (max 1000 chars)";

/// The reason given for a query that matches an injection pattern.
pub const INJECTION_REASON: &'static str = "Potential injection detected";

/// Whether the regular expression `pattern` compiles and matches somewhere in
/// `haystack`.
pub uninterp spec fn regex_matches(pattern: Seq<char>, haystack: Seq<char>) -> bool;

/// The verdict on a query.
pub enum ValidationResult {
    Valid,
    /// The query is refused, for the reason given.
    Blocked(String),
}

/// The case-insensitive patterns of known injection attempts.
pub open spec fn injection_patterns() -> Seq<&'static str> {
    seq![
        "(?i)ignore previous instructions",
        "(?i)system prompt",
        "(?i)you are an ai",
        "(?i)<script",
        "(?i)javascript:",
        "(?i)vbscript:",
        "(?i)data:text/html",
        "(?i)alert\\(",
    ]
}

/// The injection patterns, in the order they are tried.
pub fn get_patterns() -> (r: Vec<&'static str>)
    ensures
        r@ == injection_patterns(),
{
    vec![
        "(?i)ignore previous instructions",
        "(?i)system prompt",
        "(?i)you are an ai",
        "(?i)<script",
        "(?i)javascript:",
        "(?i)vbscript:",
        "(?i)data:text/html",
        "(?i)alert\\(",
    ]
}

/// Relies on regex::Regex::new and regex::Regex::is_match: whether the
/// pattern compiles and matches somewhere in `haystack`; a pattern that does
/// not compile matches nothing.
#[verifier::external_body]
fn pattern_matches(pattern: &str, haystack: &str) -> (r: bool)
    ensures
        r == regex_matches(pattern@, haystack@),
{
    match regex::Regex::new(pattern) {
        Ok(re) => re.is_match(haystack),
        Err(_) => false,
    }
}

/// A blocked verdict with the given reason.
fn blocked(reason: &str) -> (r: ValidationResult)
    ensures
        r matches ValidationResult::Blocked(m) && m@ == reason@,
{
    ValidationResult::Blocked(reason.to_owned())
}

/// The verdict on a query of acceptable length, given for each injection
/// pattern whether it matched: blocked as an injection if any did.
pub fn injection_verdict(hits: &Vec<bool>) -> (r: ValidationResult)
    ensures
        (exists|i: int| 0 <= i < hits@.len() && hits@[i]) ==> (r matches ValidationResult::Blocked(m)
            && m@ == INJECTION_REASON@),
        (forall|i: int| 0 <= i < hits@.len() ==> !hits@[i]) ==> r is Valid,
{
    let mut i: usize = 0;
    while i < hits.len()
        invariant
            i <= hits@.len(),
            forall|j: int| 0 <= j < i ==> !hits@[j],
        decreases hits.len() - i,
    {
        if hits[i] {
            return blocked(INJECTION_REASON);
        }
        i = i + 1;
    }
    ValidationResult::Valid
}

/// Some injection pattern matches `input`.
pub open spec fn injection_found(input: Seq<char>) -> bool {
    exists|i: int| 0 <= i < injection_patterns().len() && regex_matches(
        #[trigger] injection_patterns()[i]@,
        input,
    )
}

/// Checks a query before it is searched: over `MAX_INPUT_CHARS` characters
/// it is blocked as too long; otherwise it is blocked as an injection where
/// one of the injection patterns matches it, and valid where none does.
pub fn validate_input(input: &str) -> (r: ValidationResult)
    ensures
        input@.len() > MAX_INPUT_CHARS ==> (r matches ValidationResult::Blocked(m) && m@
            == TOO_LONG_REASON@),
        input@.len() <= MAX_INPUT_CHARS && injection_found(input@) ==> (r matches ValidationResult::Blocked(m)
            && m@ == INJECTION_REASON@),
        input@.len() <= MAX_INPUT_CHARS && !injection_found(input@) ==> r is Valid,
{
    if to_chars(input).len() > MAX_INPUT_CHARS {
        return blocked(TOO_LONG_REASON);
    }
    let patterns = get_patterns();
    let mut hits: Vec<bool> = Vec::new();
    let mut i: usize = 0;
    while i < patterns.len()
        invariant
            i <= patterns@.len(),
            patterns@ == injection_patterns(),
            hits@.len() == i,
            forall|k: int| 0 <= k < i ==> hits@[k] == regex_matches(#[trigger] patterns@[k]@, input@),
        decreases patterns.len() - i,
    {
        let hit = pattern_matches(patterns[i], input);
        hits.push(hit);
        i = i + 1;
    }
    proof {
        if injection_found(input@) {
            let k = choose|k: int| 0 <= k < injection_patterns().len() && regex_matches(
                #[trigger] injection_patterns()[k]@,
                input@,
            );
            assert(hits@[k]);
        } else {
            assert forall|k: int| 0 <= k < hits@.len() implies !hits@[k] by {
                assert(!regex_matches(injection_patterns()[k]@, input@));
            }
        }
    }
    injection_verdict(&hits)
}

} // verus!
