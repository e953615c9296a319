use vstd::prelude::*;

use crate::normalize::{normalize_ipa, normalized};
use crate::runes::{
    mapping_rationale, mapping_runes, map_token, token_rationale, token_runes, Mapping, Rune,
};
use crate::text::{push_char, strings_view};
use crate::tokenize::{
    index_view, ipa_patterns, ipa_token_rules, lemma_tokens_reconstruct, patterns, rules_of,
    tokenize_with, tokens_of,
};

verus! {

/// One entry of the per-token trace: the token, the rule that produced it
/// (`None` for a single character that no rule matched), and its mapping
/// (`None` where the token is unmapped).
#[derive(Debug)]
pub struct TokenStep {
    pub token: String,
    pub rule: Option<usize>,
    pub mapping: Option<Mapping>,
}

/// The outcome of one conversion. Unmapped tokens are collected, not fatal:
/// a caller tells "fully mapped" from "partial" by `unmapped`.
#[derive(Debug)]
pub struct ConversionResult {
    pub normalized: String,
    pub steps: Vec<TokenStep>,
    pub runes: Vec<Rune>,
    pub unmapped: Vec<String>,
    pub rendered: String,
}

/// The mathematical content of a conversion result.
pub struct ConversionView {
    pub normalized: Seq<char>,
    pub tokens: Seq<Seq<char>>,
    pub rules: Seq<Option<int>>,
    pub step_runes: Seq<Option<Seq<Rune>>>,
    pub step_rationales: Seq<Option<&'static str>>,
    pub runes: Seq<Rune>,
    pub unmapped: Seq<Seq<char>>,
    pub rendered: Seq<char>,
}

impl ConversionResult {
    pub open spec fn view(&self) -> ConversionView {
        ConversionView {
            normalized: self.normalized@,
            tokens: self.steps@.map_values(|s: TokenStep| s.token@),
            rules: self.steps@.map_values(|s: TokenStep| index_view(s.rule)),
            step_runes: self.steps@.map_values(|s: TokenStep| mapping_runes(s.mapping)),
            step_rationales: self.steps@.map_values(|s: TokenStep| mapping_rationale(s.mapping)),
            runes: self.runes@,
            unmapped: strings_view(self.unmapped@),
            rendered: self.rendered@,
        }
    }

    /// Whether every token was mapped.
    pub fn is_complete(&self) -> (b: bool)
        ensures
            b == (self.unmapped@.len() == 0),
    {
        self.unmapped.len() == 0
    }
}

/// The runes of a token sequence: each mapped token's runes in order; an
/// unmapped token contributes none.
pub open spec fn runes_of(ts: Seq<Seq<char>>) -> Seq<Rune>
    decreases ts.len(),
{
    if ts.len() == 0 {
        Seq::empty()
    } else {
        runes_of(ts.drop_last()) + match token_runes(ts.last()) {
            Some(rs) => rs,
            None => Seq::empty(),
        }
    }
}

/// The tokens that the mapping table has no entry for, in order.
pub open spec fn unmapped_of(ts: Seq<Seq<char>>) -> Seq<Seq<char>> {
    ts.filter(|t: Seq<char>| token_runes(t) is None)
}

/// The glyphs of `rs`, with one space between neighbours.
pub open spec fn render(rs: Seq<Rune>) -> Seq<char>
    decreases rs.len(),
{
    if rs.len() == 0 {
        Seq::empty()
    } else if rs.len() == 1 {
        seq![rs[0].spec_glyph()]
    } else {
        render(rs.drop_last()) + seq![' ', rs.last().spec_glyph()]
    }
}

/// What converting `input` yields: normalize, tokenize against the IPA rule
/// table, map each token, render the runes.
pub open spec fn conversion(input: Seq<char>) -> ConversionView {
    let n = normalized(input);
    let ts = tokens_of(ipa_patterns(), n);
    ConversionView {
        normalized: n,
        tokens: ts,
        rules: rules_of(ipa_patterns(), n),
        step_runes: ts.map_values(|t: Seq<char>| token_runes(t)),
        step_rationales: ts.map_values(|t: Seq<char>| token_rationale(t)),
        runes: runes_of(ts),
        unmapped: unmapped_of(ts),
        rendered: render(runes_of(ts)),
    }
}

/// The runes separated by single spaces.
pub fn render_runes(rs: &Vec<Rune>) -> (r: String)
    ensures
        r@ == render(rs@),
{
    let mut out = String::new();
    let mut i: usize = 0;
    while i < rs.len()
        invariant
            i <= rs.len(),
            out@ == render(rs@.take(i as int)),
        decreases rs.len() - i,
    {
        proof {
            assert(rs@.take(i + 1).drop_last() =~= rs@.take(i as int));
        }
        if i > 0 {
            push_char(&mut out, ' ');
        }
        push_char(&mut out, rs[i].glyph());
        proof {
            if i == 0 {
                assert(out@ =~= render(rs@.take(1)));
            } else {
                assert(out@ =~= render(rs@.take(i + 1)));
            }
        }
        i += 1;
    }
    assert(rs@.take(rs.len() as int) =~= rs@);
    out
}

/// Converts an IPA transcription to runes: normalizes it, tokenizes it against
/// the IPA rule table, maps each token, and renders the runes. Total: unmapped
/// tokens are listed in the result and contribute no runes.
pub fn convert(input: &str) -> (r: ConversionResult)
    ensures
        r@ == conversion(input@),
{
    let norm = normalize_ipa(input);
    let rules = ipa_token_rules();
    let ns = norm.as_str();
    let toks = tokenize_with(&rules, ns);
    let ghost ts = tokens_of(ipa_patterns(), norm@);
    let ghost rl = rules_of(ipa_patterns(), norm@);
    let mut steps: Vec<TokenStep> = Vec::new();
    let mut runes: Vec<Rune> = Vec::new();
    let mut unmapped: Vec<String> = Vec::new();
    let ghost keep = |t: Seq<char>| token_runes(t) is None;
    let mut i: usize = 0;
    while i < toks.len()
        invariant
            i <= toks.len(),
            toks@.len() == ts.len(),
            rl.len() == ts.len(),
            forall|j: int|
                0 <= j < toks@.len() ==> (#[trigger] toks@[j]).text@ == ts[j] && index_view(
                    toks@[j].rule,
                ) == rl[j],
            steps@.len() == i,
            forall|j: int|
                0 <= j < i ==> (#[trigger] steps@[j]).token@ == ts[j] && index_view(steps@[j].rule)
                    == rl[j] && mapping_runes(steps@[j].mapping) == token_runes(ts[j])
                    && mapping_rationale(steps@[j].mapping) == token_rationale(ts[j]),
            runes@ == runes_of(ts.take(i as int)),
            strings_view(unmapped@) == ts.take(i as int).filter(keep),
            keep == (|t: Seq<char>| token_runes(t) is None),
        decreases toks.len() - i,
    {
        let text = toks[i].text.clone();
        let m = map_token(text.as_str());
        proof {
            assert(ts.take(i + 1).drop_last() =~= ts.take(i as int));
            assert(ts.take(i + 1) =~= ts.take(i as int).push(ts[i as int]));
            ts.take(i as int).lemma_filter_push(ts[i as int], keep);
        }
        match &m {
            Some(mp) => {
                let ghost before = runes@;
                let mut k: usize = 0;
                while k < mp.runes.len()
                    invariant
                        k <= mp.runes.len(),
                        runes@ == before + mp.runes@.take(k as int),
                    decreases mp.runes.len() - k,
                {
                    runes.push(mp.runes[k]);
                    assert(runes@ =~= before + mp.runes@.take(k + 1));
                    k += 1;
                }
                assert(mp.runes@.take(mp.runes.len() as int) =~= mp.runes@);
            },
            None => {
                let u = text.clone();
                assert(strings_view(unmapped@.push(u)) =~= strings_view(unmapped@).push(u@));
                unmapped.push(u);
            },
        }
        steps.push(TokenStep { token: text, rule: toks[i].rule, mapping: m });
        i += 1;
    }
    proof {
        assert(ts.take(ts.len() as int) =~= ts);
    }
    let rendered = render_runes(&runes);
    let r = ConversionResult { normalized: norm, steps, runes, unmapped, rendered };
    proof {
        assert(r@.tokens =~= ts);
        assert(r@.rules =~= rl);
        assert(r@.step_runes =~= ts.map_values(|t: Seq<char>| token_runes(t)));
        assert(r@.step_rationales =~= ts.map_values(|t: Seq<char>| token_rationale(t)));
    }
    r
}

/// Runes of a concatenation are the concatenation of the runes.
pub proof fn lemma_runes_of_append(a: Seq<Seq<char>>, b: Seq<Seq<char>>)
    ensures
        runes_of(a + b) == runes_of(a) + runes_of(b),
    decreases b.len(),
{
    if b.len() == 0 {
        assert(a + b =~= a);
        assert(runes_of(a) + runes_of(b) =~= runes_of(a));
    } else {
        lemma_runes_of_append(a, b.drop_last());
        assert((a + b).drop_last() =~= a + b.drop_last());
        assert((a + b).last() == b.last());
        let tail = match token_runes(b.last()) {
            Some(rs) => rs,
            None => Seq::<Rune>::empty(),
        };
        assert(runes_of(a) + runes_of(b.drop_last()) + tail =~= runes_of(a) + (runes_of(
            b.drop_last(),
        ) + tail));
    }
}

/// The tokens of a conversion, concatenated in order, give back the normalized
/// input.
pub proof fn lemma_conversion_reconstructs(input: Seq<char>)
    ensures
        conversion(input).tokens.flatten() == conversion(input).normalized,
{
    lemma_tokens_reconstruct(ipa_patterns(), normalized(input));
}

/// Two results of converting the same input are equal: a conversion depends on
/// its input alone.
pub proof fn lemma_conversion_deterministic(a: ConversionResult, b: ConversionResult, input: Seq<
    char,
>)
    requires
        a@ == conversion(input),
        b@ == conversion(input),
    ensures
        a@ == b@,
{
}

proof fn lemma_none_unmapped(ts: Seq<Seq<char>>)
    requires
        forall|j: int| 0 <= j < ts.len() ==> token_runes(#[trigger] ts[j]) is Some,
    ensures
        unmapped_of(ts) == Seq::<Seq<char>>::empty(),
{
    let keep = |t: Seq<char>| token_runes(t) is None;
    assert(ts.all(|x: Seq<char>| !keep(x)));
    ts.lemma_all_neg_filter_empty(keep);
}

/// Where exactly one token of a conversion is unmapped, the unmapped list holds
/// that token alone, every other token is mapped, and the runes are those of
/// the tokens before it followed by those of the tokens after it.
pub proof fn lemma_single_unmapped_token(input: Seq<char>, i: int)
    requires
        0 <= i < conversion(input).tokens.len(),
        token_runes(conversion(input).tokens[i]) is None,
        forall|j: int|
            0 <= j < conversion(input).tokens.len() && j != i ==> token_runes(
                #[trigger] conversion(input).tokens[j],
            ) is Some,
    ensures
        conversion(input).unmapped == seq![conversion(input).tokens[i]],
        forall|j: int|
            0 <= j < conversion(input).tokens.len() && j != i ==> (
            #[trigger] conversion(input).step_runes[j]) is Some,
        conversion(input).runes == runes_of(conversion(input).tokens.take(i)) + runes_of(
            conversion(input).tokens.skip(i + 1),
        ),
{
    let ts = conversion(input).tokens;
    let pre = ts.take(i);
    let mid = seq![ts[i]];
    let post = ts.skip(i + 1);
    assert(ts =~= pre + mid + post);
    let keep = |t: Seq<char>| token_runes(t) is None;
    assert forall|j: int| 0 <= j < pre.len() implies token_runes(#[trigger] pre[j]) is Some by {
        assert(pre[j] == ts[j]);
    }
    assert forall|j: int| 0 <= j < post.len() implies token_runes(#[trigger] post[j]) is Some by {
        assert(post[j] == ts[i + 1 + j]);
    }
    lemma_none_unmapped(pre);
    lemma_none_unmapped(post);
    Seq::filter_distributes_over_add(pre + mid, post, keep);
    Seq::filter_distributes_over_add(pre, mid, keep);
    reveal_with_fuel(Seq::filter, 2);
    assert(mid.drop_last() =~= Seq::<Seq<char>>::empty());
    assert(mid.filter(keep) =~= mid);
    assert(unmapped_of(ts) =~= mid);
    lemma_runes_of_append(pre + mid, post);
    lemma_runes_of_append(pre, mid);
    assert(mid.drop_last() =~= Seq::<Seq<char>>::empty());
    assert(mid.last() == ts[i]);
    assert(runes_of(mid.drop_last()) =~= Seq::<Rune>::empty());
    assert(runes_of(mid) =~= Seq::<Rune>::empty());
    assert(runes_of(pre) + runes_of(mid) =~= runes_of(pre));
}

} // verus!
