//! Character-level text helpers: substring containment over `char` sequences.
use vstd::prelude::*;
use vstd::std_specs::iter::IteratorSpec;

verus! {

/// `pat` occurs in `hay` as a contiguous run of characters.
pub open spec fn seq_contains(hay: Seq<char>, pat: Seq<char>) -> bool {
    exists|i: int| 0 <= i <= hay.len() - pat.len() && #[trigger] hay.subrange(i, i + pat.len()) == pat
}

/// Some keyword of `keys` occurs in `hay`.
pub open spec fn contains_any(hay: Seq<char>, keys: Seq<&str>) -> bool {
    exists|k: int| 0 <= k < keys.len() && seq_contains(hay, #[trigger] keys[k]@)
}

/// The characters of `s`, in order.
pub fn to_chars(s: &str) -> (r: Vec<char>)
    ensures
        r@ == s@,
{
    let mut it = s.chars();
    let mut out: Vec<char> = Vec::new();
    proof {
        vstd::string::axiom_spec_iter(s);
    }
    loop
        invariant
            out@ + it.remaining() == s@,
            it.obeys_prophetic_iter_laws(),
            it.decrease() is Some,
        decreases it.decrease()->0,
    {
        let ghost before = it;
        let step = it.next();
        proof {
            vstd::string::next_postcondition(&before, &it, step);
        }
        match step {
            Some(c) => {
                out.push(c);
                assert(out@ + it.remaining() =~= s@);
            },
            None => {
                return out;
            },
        }
    }
}

/// Whether `pat` occurs in `hay`.
pub fn contains_chars(hay: &Vec<char>, pat: &Vec<char>) -> (r: bool)
    ensures
        r == seq_contains(hay@, pat@),
{
    if pat.len() > hay.len() {
        return false;
    }
    let n: usize = hay.len();
    let last: usize = n - pat.len();
    let mut i: usize = 0;
    while i <= last
        invariant
            last == hay@.len() - pat@.len(),
            pat@.len() <= hay@.len(),
            n == hay@.len(),
            i <= last + 1,
            forall|k: int| 0 <= k < i ==> #[trigger] hay@.subrange(k, k + pat@.len()) != pat@,
        decreases last + 1 - i,
    {
        let mut j: usize = 0;
        let mut differs = false;
        while j < pat.len() && !differs
            invariant
                i <= last,
                last == hay@.len() - pat@.len(),
                pat@.len() <= hay@.len(),
                i + pat@.len() <= hay@.len(),
                n == hay@.len(),
                j <= pat@.len(),
                forall|t: int| 0 <= t < j ==> hay@[i + t] == pat@[t],
                differs ==> j < pat@.len() && hay@[i + j] != pat@[j as int],
            decreases pat.len() - j, if differs { 0int } else { 1int },
        {
            if hay[i + j] == pat[j] {
                j = j + 1;
            } else {
                differs = true;
            }
        }
        if !differs {
            assert(hay@.subrange(i as int, i + pat@.len()) =~= pat@);
            return true;
        }
        assert(hay@.subrange(i as int, i + pat@.len())[j as int] != pat@[j as int]);
        if i == last {
            return false;
        }
        i = i + 1;
    }
    false
}

/// Whether some keyword of `keys` occurs in `hay`.
pub fn contains_any_of(hay: &Vec<char>, keys: &Vec<&str>) -> (r: bool)
    ensures
        r == contains_any(hay@, keys@),
{
    let mut k: usize = 0;
    while k < keys.len()
        invariant
            k <= keys@.len(),
            forall|m: int| 0 <= m < k ==> !seq_contains(hay@, #[trigger] keys@[m]@),
        decreases keys.len() - k,
    {
        let pat = to_chars(keys[k]);
        if contains_chars(hay, &pat) {
            return true;
        }
        k = k + 1;
    }
    false
}

/// `c`, with a newline turned into a space.
pub open spec fn flatten_char(c: char) -> char {
    if c == '\n' {
        ' '
    } else {
        c
    }
}

/// Relies on String::push: appends one character.
#[verifier::external_body]
pub(crate) fn push_char(s: &mut String, c: char)
    ensures
        final(s)@ == old(s)@.push(c),
{
    s.push(c)
}

/// `text` with every newline replaced by a space, as sent for embedding.
pub fn flatten_newlines(text: &str) -> (r: String)
    ensures
        r@ == text@.map_values(|c: char| flatten_char(c)),
{
    let t = to_chars(text);
    let mut out = String::new();
    let mut i: usize = 0;
    while i < t.len()
        invariant
            i <= t@.len(),
            t@ == text@,
            out@ == t@.subrange(0, i as int).map_values(|c: char| flatten_char(c)),
        decreases t.len() - i,
    {
        let c = t[i];
        let flat = if c == '\n' { ' ' } else { c };
        push_char(&mut out, flat);
        i = i + 1;
        assert(out@ =~= t@.subrange(0, i as int).map_values(|c: char| flatten_char(c)));
    }
    assert(t@.subrange(0, i as int) =~= t@);
    out
}

} // verus!
