use vstd::prelude::*;

use crate::text::{ascii_punct, chars_of, is_ascii_punct, is_white_space, string_of, white_space};

verus! {

/// The stress marks of IPA: primary `ˈ` and secondary `ˌ`.
pub open spec fn is_stress_mark(c: char) -> bool {
    c == 'ˈ' || c == 'ˌ'
}

/// A character that normalization removes: a stress mark, white space or ASCII
/// punctuation.
pub open spec fn is_dropped(c: char) -> bool {
    is_stress_mark(c) || is_white_space(c) || is_ascii_punct(c)
}

/// Whether `s` is wrapped in the phonemic transcription delimiters `/.../`.
pub open spec fn is_delimited(s: Seq<char>) -> bool {
    s.len() >= 2 && s[0] == '/' && s[s.len() - 1] == '/'
}

/// `s` without its delimiters, if it has both of them; `s` itself otherwise.
pub open spec fn unwrap_delimited(s: Seq<char>) -> Seq<char> {
    if is_delimited(s) {
        s.subrange(1, s.len() - 1)
    } else {
        s
    }
}

/// The normalized form of an IPA transcription: the delimiters are unwrapped,
/// then every dropped character is removed; all other characters pass through.
pub open spec fn normalized(s: Seq<char>) -> Seq<char> {
    unwrap_delimited(s).filter(|c: char| !is_dropped(c))
}

pub fn dropped(c: char) -> (b: bool)
    ensures
        b == is_dropped(c),
{
    c == 'ˈ' || c == 'ˌ' || white_space(c) || ascii_punct(c)
}

/// Normalizes an IPA transcription: strips a `/.../` pair, stress marks, white
/// space and ASCII punctuation. Never fails.
pub fn normalize_ipa(input: &str) -> (r: String)
    ensures
        r@ == normalized(input@),
{
    let cs = chars_of(input);
    let n = cs.len();
    let (start, end) = if n >= 2 && cs[0] == '/' && cs[n - 1] == '/' {
        (1, n - 1)
    } else {
        (0, n)
    };
    let ghost src = unwrap_delimited(input@);
    assert(src =~= cs@.subrange(start as int, end as int));
    let mut out: Vec<char> = Vec::new();
    let mut i: usize = start;
    while i < end
        invariant
            start <= i <= end <= cs.len(),
            src == cs@.subrange(start as int, end as int),
            out@ == src.take(i - start).filter(|c: char| !is_dropped(c)),
        decreases end - i,
    {
        let c = cs[i];
        proof {
            assert(src.take(i - start + 1) =~= src.take(i - start).push(c));
            src.take(i - start).lemma_filter_push(c, |c: char| !is_dropped(c));
        }
        if !dropped(c) {
            out.push(c);
        }
        i += 1;
    }
    assert(src.take(end - start) =~= src);
    string_of(&out)
}

proof fn lemma_filter_keeps_all(s: Seq<char>, pred: spec_fn(char) -> bool)
    requires
        forall|i: int| 0 <= i < s.len() ==> pred(s[i]),
    ensures
        s.filter(pred) == s,
    decreases s.len(),
{
    reveal(Seq::filter);
    if s.len() > 0 {
        lemma_filter_keeps_all(s.drop_last(), pred);
        assert(s.drop_last().push(s.last()) =~= s);
    }
}

/// Normalizing a normalized transcription leaves it unchanged.
pub proof fn lemma_normalize_idempotent(s: Seq<char>)
    ensures
        normalized(normalized(s)) == normalized(s),
{
    let t = normalized(s);
    let keep = |c: char| !is_dropped(c);
    assert forall|i: int| 0 <= i < t.len() implies keep(t[i]) by {
        unwrap_delimited(s).lemma_filter_pred(keep, i);
    }
    assert(!is_delimited(t));
    lemma_filter_keeps_all(t, keep);
}

} // verus!
