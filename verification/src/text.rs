//! Operations on text that the name sets are made with.

use vstd::prelude::*;
use vstd::std_specs::iter::IteratorSpec;

verus! {

/// The lowercase form of a text, as the standard library gives it.
pub uninterp spec fn lowercase(s: Seq<char>) -> Seq<char>;

/// `s` without `prefix` at its start, if it starts with it.
pub open spec fn without_prefix(s: Seq<char>, prefix: Seq<char>) -> Option<Seq<char>> {
    if prefix.is_prefix_of(s) {
        Some(s.subrange(prefix.len() as int, s.len() as int))
    } else {
        None
    }
}

/// `s` without `suffix` at its end, if it ends with it.
pub open spec fn without_suffix(s: Seq<char>, suffix: Seq<char>) -> Option<Seq<char>> {
    if suffix.is_suffix_of(s) {
        Some(s.subrange(0, s.len() - suffix.len()))
    } else {
        None
    }
}

/// `s` without `prefix` at its start and then without `suffix` at its end, if
/// it has both, one after the other.
pub open spec fn between(s: Seq<char>, prefix: Seq<char>, suffix: Seq<char>) -> Option<Seq<char>> {
    match without_prefix(s, prefix) {
        Some(rest) => without_suffix(rest, suffix),
        None => None,
    }
}

/// `a` and `b` agree on their first `k` characters, and there `a` ends while
/// `b` goes on, or `a` holds the character with the smaller code point.
pub open spec fn less_at(a: Seq<char>, b: Seq<char>, k: int) -> bool {
    &&& 0 <= k <= a.len()
    &&& k < b.len()
    &&& forall|j: int| 0 <= j < k ==> a[j] == b[j]
    &&& (k == a.len() || a[k] < b[k])
}

/// `a` comes before `b` in the order of texts: character by character, by
/// code point, a text before those that continue it.
pub open spec fn text_less(a: Seq<char>, b: Seq<char>) -> bool {
    exists|k: int| less_at(a, b, k)
}

/// No text comes before itself.
pub proof fn lemma_less_irreflexive(a: Seq<char>)
    ensures
        !text_less(a, a),
{
    assert forall|k: int| !less_at(a, a, k) by {}
}

/// What comes before a text comes before all that the text comes before.
pub proof fn lemma_less_transitive(a: Seq<char>, b: Seq<char>, c: Seq<char>)
    requires
        text_less(a, b),
        text_less(b, c),
    ensures
        text_less(a, c),
{
    let k1 = choose|k: int| less_at(a, b, k);
    let k2 = choose|k: int| less_at(b, c, k);
    if k1 <= k2 {
        assert(less_at(a, c, k1));
    } else {
        assert(less_at(a, c, k2));
    }
}

proof fn lemma_less_total_from(a: Seq<char>, b: Seq<char>, from: int)
    requires
        a != b,
        0 <= from <= a.len(),
        from <= b.len(),
        forall|j: int| 0 <= j < from ==> a[j] == b[j],
    ensures
        text_less(a, b) || text_less(b, a),
    decreases a.len() - from,
{
    if from == a.len() {
        if from == b.len() {
            assert(a =~= b);
        } else {
            assert(less_at(a, b, from));
        }
    } else if from == b.len() {
        assert(less_at(b, a, from));
    } else if a[from] < b[from] {
        assert(less_at(a, b, from));
    } else if b[from] < a[from] {
        assert(less_at(b, a, from));
    } else {
        lemma_less_total_from(a, b, from + 1);
    }
}

/// Of two different texts one comes before the other.
pub proof fn lemma_less_total(a: Seq<char>, b: Seq<char>)
    ensures
        a == b || text_less(a, b) || text_less(b, a),
{
    if a != b {
        lemma_less_total_from(a, b, 0);
    }
}

/// The texts of a sequence of strings.
pub open spec fn texts(v: Seq<String>) -> Seq<Seq<char>> {
    v.map_values(|s: String| s@)
}

/// `str::to_lowercase`: the lowercase form of the text, which depends on the
/// text alone.
#[verifier::external_body]
pub(crate) fn to_lowercase(s: &str) -> (r: String)
    ensures
        r@ == lowercase(s@),
{
    s.to_lowercase()
}

/// The `<` of `str` (`PartialOrd::lt`): whether `a` comes before `b` in the
/// order of strings, which compares them byte by byte and with that, as the
/// standard library says, by the code points of their characters.
#[verifier::external_body]
pub(crate) fn precedes(a: &str, b: &str) -> (r: bool)
    ensures
        r == text_less(a@, b@),
{
    a < b
}

/// `str::strip_prefix` with a text as the pattern: the rest of `s` after
/// `prefix`, or `None` where `s` does not start with it.
#[verifier::external_body]
pub(crate) fn strip_prefix<'a>(s: &'a str, prefix: &str) -> (r: Option<&'a str>)
    ensures
        match without_prefix(s@, prefix@) {
            Some(rest) => r.is_some() && r.unwrap()@ == rest,
            None => r.is_none(),
        },
{
    s.strip_prefix(prefix)
}

/// `str::strip_suffix` with a text as the pattern: `s` up to `suffix`, or
/// `None` where `s` does not end with it.
#[verifier::external_body]
pub(crate) fn strip_suffix<'a>(s: &'a str, suffix: &str) -> (r: Option<&'a str>)
    ensures
        match without_suffix(s@, suffix@) {
            Some(rest) => r.is_some() && r.unwrap()@ == rest,
            None => r.is_none(),
        },
{
    s.strip_suffix(suffix)
}

/// Strips `prefix` and then `suffix`.
pub fn strip_both<'a>(s: &'a str, prefix: &str, suffix: &str) -> (r: Option<&'a str>)
    ensures
        match between(s@, prefix@, suffix@) {
            Some(rest) => r.is_some() && r.unwrap()@ == rest,
            None => r.is_none(),
        },
{
    match strip_prefix(s, prefix) {
        Some(rest) => strip_suffix(rest, suffix),
        None => None,
    }
}

/// The characters of a text, one by one.
pub fn chars_of(s: &str) -> (r: Vec<char>)
    ensures
        r@ == s@,
{
    broadcast use vstd::string::group_string_axioms;

    let n = s.unicode_len();
    let mut rest = s.chars();
    let mut chars: Vec<char> = Vec::new();
    assert(chars@ + rest.remaining() =~= s@);
    while chars.len() < n
        invariant
            n == s@.len(),
            chars@ + rest.remaining() == s@,
            rest.obeys_prophetic_iter_laws(),
        decreases n - chars@.len(),
    {
        let ghost before = chars@;
        let ghost ahead = rest.remaining();
        assert(ahead.len() > 0);
        let next = rest.next();
        assert(next == Some(ahead[0]));
        match next {
            Some(c) => {
                chars.push(c);
            },
            None => {},
        }
        assert(chars@ + rest.remaining() =~= before + ahead);
    }
    assert(chars@ =~= s@);
    chars
}

} // verus!
