//! Keys: what is left of a string once case, spacing and punctuation are gone.
use vstd::prelude::*;

verus! {

/// What `str::to_lowercase` returns for text that is not plain ASCII.
pub uninterp spec fn unicode_lowercase(s: Seq<char>) -> Seq<char>;

/// A character that a key may hold: `a` to `z` or `0` to `9`.
pub open spec fn is_key_char(c: char) -> bool {
    ('a' <= c && c <= 'z') || ('0' <= c && c <= '9')
}

/// Every character of `s` is ASCII.
pub open spec fn is_ascii_text(s: Seq<char>) -> bool {
    forall|i: int| 0 <= i < s.len() ==> (#[trigger] s[i]) <= '\x7f'
}

/// The lower-case form of one ASCII character.
pub open spec fn ascii_lower(c: char) -> char {
    if 'A' <= c && c <= 'Z' {
        ((c as u8) + 32) as char
    } else {
        c
    }
}

/// `s` with each of its characters in ASCII lower case.
pub open spec fn ascii_lowered(s: Seq<char>) -> Seq<char> {
    Seq::new(s.len(), |i: int| ascii_lower(s[i]))
}

/// The lower-case form of a string: on ASCII text `A` to `Z` become `a` to
/// `z` and nothing else changes; other text is lowered by Unicode's rules.
pub open spec fn lowercase(s: Seq<char>) -> Seq<char> {
    if is_ascii_text(s) {
        ascii_lowered(s)
    } else {
        unicode_lowercase(s)
    }
}

/// The key characters of `s`, in their order.
pub open spec fn key_chars(s: Seq<char>) -> Seq<char>
    decreases s.len(),
{
    if s.len() == 0 {
        Seq::empty()
    } else if is_key_char(s.last()) {
        key_chars(s.drop_last()).push(s.last())
    } else {
        key_chars(s.drop_last())
    }
}

/// The key of `s`: its lower-case form with everything but ASCII letters and
/// digits removed. Lowering leaves no `A` to `Z` behind, so the letters that
/// remain are `a` to `z`.
pub open spec fn normalize_spec(s: Seq<char>) -> Seq<char> {
    key_chars(lowercase(s))
}

/// `s` is a key: it holds key characters only.
pub open spec fn is_key(s: Seq<char>) -> bool {
    forall|i: int| 0 <= i < s.len() ==> is_key_char(#[trigger] s[i])
}

/// Calls `str::to_lowercase`. Trusted: on ASCII text the result changes `A`
/// to `Z` into `a` to `z` and nothing else; on other text it is a function of
/// the text alone, which is only named.
#[verifier::external_body]
fn to_lowercase(s: &str) -> (r: String)
    ensures
        is_ascii_text(s@) ==> r@ == ascii_lowered(s@),
        !is_ascii_text(s@) ==> r@ == unicode_lowercase(s@),
{
    s.to_lowercase()
}

/// Appends one character with `String::push`.
pub assume_specification[ String::push ](s: &mut String, c: char)
    ensures
        final(s)@ == old(s)@.push(c),
;

/// Filtering yields a key.
pub proof fn lemma_key_chars_is_key(s: Seq<char>)
    ensures
        is_key(key_chars(s)),
        key_chars(s).len() <= s.len(),
    decreases s.len(),
{
    if s.len() > 0 {
        lemma_key_chars_is_key(s.drop_last());
    }
}

/// Filtering leaves a key as it is.
pub proof fn lemma_key_chars_of_key(s: Seq<char>)
    requires
        is_key(s),
    ensures
        key_chars(s) == s,
    decreases s.len(),
{
    if s.len() > 0 {
        lemma_key_chars_of_key(s.drop_last());
        assert(s.drop_last().push(s.last()) =~= s);
    }
}

/// Normalizing twice is normalizing once: for every string `s`,
/// `normalize(normalize(s)) == normalize(s)`, and the result is a key.
pub proof fn lemma_normalize_idempotent(s: Seq<char>)
    ensures
        is_key(normalize_spec(s)),
        normalize_spec(normalize_spec(s)) == normalize_spec(s),
{
    let k = normalize_spec(s);
    lemma_key_chars_is_key(lowercase(s));
    assert(is_ascii_text(k));
    assert(lowercase(k) =~= k);
    lemma_key_chars_of_key(k);
}

/// Tells whether `c` may stand in a key.
pub fn is_key_character(c: char) -> (r: bool)
    ensures
        r == is_key_char(c),
{
    (c >= 'a' && c <= 'z') || (c >= '0' && c <= '9')
}

/// Keeps the key characters of `s`, in their order, and drops the rest.
pub fn retain_key_chars(s: &str) -> (r: String)
    ensures
        r@ == key_chars(s@),
{
    let mut out = String::new();
    for c in it: s.chars()
        invariant
            it.seq() == s@,
            out@ == key_chars(s@.take(it.index() as int)),
    {
        proof {
            let n = it.index() as int;
            assert(s@.take(n + 1).drop_last() =~= s@.take(n));
        }
        if is_key_character(c) {
            out.push(c);
        }
    }
    proof {
        assert(s@.take(s@.len() as int) =~= s@);
    }
    out
}

/// Lower-cases `s` and keeps only its ASCII letters and digits, in order.
/// The result is a key, and normalizing it again changes nothing.
pub fn normalize(s: &str) -> (r: String)
    ensures
        r@ == normalize_spec(s@),
        is_key(r@),
        normalize_spec(r@) == r@,
{
    let lower = to_lowercase(s);
    proof {
        lemma_normalize_idempotent(s@);
    }
    retain_key_chars(lower.as_str())
}

} // verus!
